use base64::Engine;
use cockpit_tools::adapter::{
    adapter_process_matches, default_antigravity_series_platform_id, repair_failed_error,
    should_repair_installed_adapter, AdapterIdentity,
};
use cockpit_tools::codebuddy::{CodebuddyAccount, CodebuddyAccountIndex};
use cockpit_tools::codex::{CodexAccount, CodexTokens};
use cockpit_tools::keeper::{
    expires_at_milliseconds_due, expires_at_seconds_due, jwt_token_expires_soon, AttemptSchedule,
};
use cockpit_tools::opencode::{
    build_openai_payload, codex_access_token_expired, decode_token_exp_ms,
    get_opencode_auth_json_path, get_opencode_auth_json_path_candidates,
    opencode_sync_targets, replace_github_copilot_entry_from_account, replace_openai_entry_from_codex,
    replace_provider_entry,
};
use cockpit_tools::package_index::{
    index_cache_is_fresh, local_content_check_needed, local_package_content_error, normalized_relative_path,
    package_dir_fingerprint, package_file_fingerprint_line, platform_package_index_url,
    strict_local_source_validation_enabled,
};
use cockpit_tools::startup::{
    env_flag, raise_process_file_descriptor_limit, restore_startup_platform_adapter_if_installed,
    startup_restore_platforms,
};

fn jwt_with_exp(exp: i64) -> String {
    let engine = base64::engine::general_purpose::URL_SAFE_NO_PAD;
    format!(
        "{}.{}.sig",
        engine.encode(br#"{"alg":"none"}"#),
        engine.encode(format!(r#"{{"exp":{}}}"#, exp).as_bytes())
    )
}

#[test]
fn token_expiry_windows() {
    assert!(expires_at_seconds_due(None, 0));
    assert!(expires_at_seconds_due(Some(1_300), 1_000));
    assert!(!expires_at_seconds_due(Some(1_301), 1_000));
    assert!(expires_at_milliseconds_due(Some(1_300_000), 1_000_000));
    assert!(!expires_at_milliseconds_due(Some(1_300_001), 1_000_000));
    assert!(jwt_token_expires_soon("garbage", 60, 0));
    assert!(!jwt_token_expires_soon(&jwt_with_exp(2_000), 60, 1_000));
    assert!(jwt_token_expires_soon(&jwt_with_exp(1_050), 60, 1_000));
}

#[test]
fn failed_attempts_back_off() {
    let mut schedule = AttemptSchedule::new();
    assert!(schedule.allow_attempt("codex:a", 100));
    schedule.delay_attempt("codex:a", 100, 900);
    assert!(!schedule.allow_attempt("codex:a", 999));
    assert!(schedule.allow_attempt("codex:a", 1_000));
    assert!(schedule.allow_attempt("codex:b", 100));
    schedule.clear_attempt_backoff("codex:a");
    assert!(schedule.allow_attempt("codex:a", 100));
}

#[test]
fn startup_decisions() {
    assert!(env_flag(Some(" TRUE ")));
    assert!(env_flag(Some("1")));
    assert!(!env_flag(Some("no")));
    assert!(!env_flag(None));
    assert_eq!(raise_process_file_descriptor_limit(256, u64::MAX, u64::MAX), Some(4096));
    assert_eq!(raise_process_file_descriptor_limit(256, 1024, u64::MAX), Some(1024));
    assert_eq!(raise_process_file_descriptor_limit(8192, 65536, u64::MAX), None);
    let platforms = startup_restore_platforms();
    assert_eq!(platforms.len(), 14);
    assert_eq!(platforms[0], "codex");
    assert_eq!(platforms[13], "antigravity_ide");
    let mut restored = Vec::new();
    assert!(restore_startup_platform_adapter_if_installed("zed", true, &mut restored));
    assert!(!restore_startup_platform_adapter_if_installed("kiro", false, &mut restored));
    assert_eq!(restored, vec!["zed".to_string()]);
}

#[test]
fn codebuddy_records() {
    let index = CodebuddyAccountIndex::new();
    assert_eq!(index.version, "1.0");
    assert!(index.accounts.is_empty());
    let account = CodebuddyAccount {
        id: "cb1".to_string(),
        email: "a@b.c".to_string(),
        tags: Some(vec!["t".to_string()]),
        plan_type: None,
        created_at: 1,
        last_used: 2,
    };
    let s = account.summary();
    assert_eq!(s.id, "cb1");
    assert_eq!(s.tags, Some(vec!["t".to_string()]));
    assert_eq!(s.last_used, 2);
}

#[test]
fn adapter_repair_decisions() {
    assert!(should_repair_installed_adapter("平台包 adapter entry 不存在: bin/x"));
    assert!(!should_repair_installed_adapter("网络错误"));
    assert_eq!(repair_failed_error("e", "r"), "e；自动修复平台包失败，请在平台管理中手动修复或重新安装: r");
    assert_eq!(default_antigravity_series_platform_id(false, true), "antigravity");
    assert_eq!(default_antigravity_series_platform_id(true, true), "antigravity_ide");
    assert_eq!(default_antigravity_series_platform_id(false, false), "antigravity_ide");
    let a = AdapterIdentity {
        package_dir: "/p".to_string(),
        executable_path: "/p/bin".to_string(),
        executable_len: Some(3),
        executable_modified: Some((10, 0)),
    };
    let mut b = AdapterIdentity {
        package_dir: "/p".to_string(),
        executable_path: "/p/bin".to_string(),
        executable_len: Some(3),
        executable_modified: Some((10, 0)),
    };
    assert!(adapter_process_matches(&a, &b));
    b.executable_len = Some(4);
    assert!(!adapter_process_matches(&a, &b));
}

#[test]
fn opencode_entries() {
    let token = jwt_with_exp(2_000);
    assert_eq!(decode_token_exp_ms(&token), Some(2_000_000));
    assert!(codex_access_token_expired("x", 0));
    assert!(!codex_access_token_expired(&token, 1_999_999));
    let mut account = CodexAccount::new(
        "id".to_string(),
        "e".to_string(),
        CodexTokens { id_token: String::new(), access_token: token.clone(), refresh_token: Some("rt".to_string()) },
        0,
    );
    account.account_id = Some("acc".to_string());
    let entry = build_openai_payload(&account).unwrap();
    assert_eq!(entry.refresh, "rt");
    assert_eq!(entry.expires, 2_000_000);
    assert_eq!(entry.account_id.as_deref(), Some("acc"));
    assert_eq!(
        replace_openai_entry_from_codex(&account, 2_000_000).unwrap_err(),
        "Codex access_token 已过期，无法同步到 OpenCode"
    );
    account.tokens.refresh_token = Some(" ".to_string());
    assert_eq!(
        replace_openai_entry_from_codex(&account, 0).unwrap_err(),
        "Codex refresh_token 缺失，无法同步到 OpenCode"
    );
    let gh = replace_github_copilot_entry_from_account(" gho_1 ").unwrap();
    assert_eq!(gh.access, "gho_1");
    assert_eq!(gh.refresh, "gho_1");
    assert_eq!(gh.expires, 0);
    assert!(replace_github_copilot_entry_from_account("  ").is_err());
}

#[test]
fn opencode_auth_paths() {
    assert_eq!(
        get_opencode_auth_json_path(Some(" /xdg "), Some("/home/u"), Some("/data")).unwrap(),
        "/xdg/opencode/auth.json"
    );
    assert_eq!(
        get_opencode_auth_json_path(Some("  "), Some("/home/u"), None).unwrap(),
        "/home/u/.local/share/opencode/auth.json"
    );
    let all = get_opencode_auth_json_path_candidates(None, Some("/home/u"), Some("/home/u/.local/share")).unwrap();
    assert_eq!(all, vec!["/home/u/.local/share/opencode/auth.json".to_string()]);
    assert!(get_opencode_auth_json_path(None, None, None).is_err());
}

#[test]
fn opencode_auth_entries_are_replaced() {
    let fresh = replace_provider_entry(None, "openai", r#"{"type":"oauth"}"#).unwrap();
    let v: serde_json::Value = serde_json::from_str(&fresh).unwrap();
    assert_eq!(v["openai"]["type"], "oauth");
    let merged = replace_provider_entry(Some(("/a/auth.json", r#"{"other":1,"openai":{"old":true}}"#)), "openai", "{}").unwrap();
    let v: serde_json::Value = serde_json::from_str(&merged).unwrap();
    assert_eq!(v["other"], 1);
    assert!(v["openai"].as_object().unwrap().is_empty());
    let restarted = replace_provider_entry(Some(("/a/auth.json", "[1,2]")), "k", "2").unwrap();
    let v: serde_json::Value = serde_json::from_str(&restarted).unwrap();
    assert_eq!(v["k"], 2);
    let err = replace_provider_entry(Some(("/a/auth.json", "{oops")), "k", "1").unwrap_err();
    assert!(err.starts_with("解析 OpenCode auth.json 失败 (/a/auth.json): "));
    let targets = opencode_sync_targets(
        &vec![("/t".to_string(), true), ("/x".to_string(), true), ("/y".to_string(), false)],
        "/t",
    );
    assert_eq!(targets, vec!["/x".to_string()]);
}

#[test]
fn package_index_settings() {
    assert!(index_cache_is_fresh(1_800_000, 0));
    assert!(!index_cache_is_fresh(1_800_001, 0));
    assert!(index_cache_is_fresh(i64::MIN, i64::MAX));
    assert!(!index_cache_is_fresh(i64::MAX, i64::MIN));
    assert_eq!(platform_package_index_url(Some(" https://x/index.json "), Some("https://b"), false), "https://x/index.json");
    assert_eq!(
        platform_package_index_url(Some("  "), Some("https://b"), true),
        "https://raw.githubusercontent.com/jlcodes99/cockpit-tools/platform-test/platform-packages/test/index.json"
    );
    assert_eq!(platform_package_index_url(None, Some("https://b"), false), "https://b");
    assert_eq!(
        platform_package_index_url(None, None, false),
        "https://raw.githubusercontent.com/jlcodes99/cockpit-tools/main/platform-packages/index.json"
    );
    assert!(strict_local_source_validation_enabled(true, None));
    assert!(strict_local_source_validation_enabled(false, Some(" Yes ")));
    assert!(!strict_local_source_validation_enabled(false, Some("no")));
    assert_eq!(normalized_relative_path(&vec!["bin".to_string(), "adapter".to_string()]), "bin/adapter");
    assert_eq!(normalized_relative_path(&Vec::new()), "");
    let line = package_file_fingerprint_line("bin/a", 12, "ab");
    assert_eq!(line, "bin/a\t12\tab");
    let fp = package_dir_fingerprint(&vec![line]);
    assert_eq!(fp.len(), 64);
    let expected: String = <sha2::Sha256 as sha2::Digest>::digest(b"bin/a\t12\tab\n").iter().map(|b| format!("{:02x}", b)).collect();
    assert_eq!(fp, expected);
}

#[test]
fn local_package_contents_are_compared_for_one_version_under_strict_checks() {
    assert!(local_content_check_needed(true, "1.0.0", "1.0.0"));
    assert!(!local_content_check_needed(true, "1.0.0", "1.0.1"));
    assert!(!local_content_check_needed(false, "1.0.0", "1.0.0"));

    assert_eq!(local_package_content_error(Ok("ab".to_string()), Ok("ab".to_string())), None);
    assert_eq!(
        local_package_content_error(Ok("ab".to_string()), Ok("cd".to_string())).as_deref(),
        Some("已安装平台包与当前本地包内容不一致，请修复或重新安装平台包")
    );
    assert_eq!(
        local_package_content_error(Err("read failed".to_string()), Err("other".to_string())).as_deref(),
        Some("本地平台包内容校验失败: read failed")
    );
}
