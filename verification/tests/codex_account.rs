use base64::Engine;
use cockpit_tools::codex::{
    access_token_fingerprint, account_has_refresh_token, apply_api_key_fields, build_account_storage_id,
    build_api_key_account_id, build_api_key_email, build_quota_alert_cooldown_key, build_switch_candidate,
    classify_refresh_error, clear_stale_missing_refresh_token_reauth, decode_jwt_exp,
    derive_api_provider_id, detect_auth_file_plan_type_from_path,
    extract_chatgpt_account_id_from_access_token, extract_quota_metrics, extract_user_info,
    find_existing_account_id, format_codex_quota_metric_label, format_refresh_error_for_user,
    get_auth_json_path, infer_api_provider_config, is_auth_mode_apikey, is_default_openai_base_url,
    is_http_like_url, is_managed_auth_refresh_due, is_reauth_required_refresh_error,
    mark_token_chain_updated_at, normalize_api_base_url, normalize_api_base_url_for_match,
    normalize_auth_file_plan_type, normalize_auto_switch_account_scope_mode,
    normalize_auto_switch_selected_account_ids, normalize_auto_switch_threshold,
    pick_auto_switch_target_if_needed, pick_best_candidate, resolve_api_provider_config,
    resolve_codex_home_from_env, resolve_monitored_auto_switch_account_ids,
    retain_existing_refresh_token_if_missing, run_quota_alert_if_needed, sanitize_api_provider_id,
    should_accept_authority_snapshot, update_account_name, update_account_note, update_account_tags,
    validate_api_key_credentials, CodexAccount, CodexAccountIndex, CodexAccountSummary,
    CodexApiProviderMode, CodexAuthMode, CodexQuota, CodexRefreshErrorKind, CodexTokens,
    LocalCodexOAuthSnapshot, QuotaAlertCooldowns,
};
use cockpit_tools::codex::ApiProviderConfig;
use cockpit_tools::codex_sync::{auth_file_json_with_refresh, build_auth_file_value, sync_api_key_account_from_local_state};

fn make_jwt(payload_json: &str) -> String {
    let engine = base64::engine::general_purpose::URL_SAFE_NO_PAD;
    format!(
        "{}.{}.sig",
        engine.encode(br#"{"alg":"none","typ":"JWT"}"#),
        engine.encode(payload_json.as_bytes())
    )
}

fn make_codex_tokens(email: &str, account_id: &str, org_id: &str, access: &str, refresh: &str) -> CodexTokens {
    let id_payload = format!(
        r#"{{"email":"{}","https://api.openai.com/auth":{{"chatgpt_account_id":"{}","organization_id":"{}"}}}}"#,
        email, account_id, org_id
    );
    CodexTokens {
        id_token: make_jwt(&id_payload),
        access_token: access.to_string(),
        refresh_token: Some(refresh.to_string()),
    }
}

#[test]
fn formats_refresh_errors_with_actionable_reason() {
    let reused = format_refresh_error_for_user(
        "Token 刷新失败: status=401 Unauthorized, error_code=refresh_token_reused",
    );
    assert!(reused.contains("refresh_token 已被其它客户端或实例使用过"));
    assert!(reused.contains("请重新登录"));

    let region = format_refresh_error_for_user(
        "Token 刷新失败: status=403 Forbidden, error_code=unsupported_country_region_territory",
    );
    assert!(region.contains("当前网络地区不支持刷新 Codex 授权"));
    assert!(!region.contains("请重新登录"));
}

#[test]
fn validate_api_key_credentials_rejects_url_api_key() {
    let err = validate_api_key_credentials("http://127.0.0.1:3000/v1", None)
        .expect_err("url should be rejected as api key");
    assert!(err.contains("API Key 不能是 URL"));
}

#[test]
fn validate_api_key_credentials_rejects_invalid_base_url() {
    let err = validate_api_key_credentials("sk-test-key", Some("not-a-url"))
        .expect_err("invalid base url should be rejected");
    assert!(err.contains("Base URL 格式无效"));
}

#[test]
fn validate_api_key_credentials_accepts_valid_values() {
    let (api_key, api_base_url) =
        validate_api_key_credentials("  sk-test-key  ", Some("https://relay.local/v1/"))
            .expect("valid api key + base url should pass");
    assert_eq!(api_key, "sk-test-key");
    assert_eq!(api_base_url.as_deref(), Some("https://relay.local/v1"));
}

#[test]
fn extracts_email_from_openai_profile_claim() {
    let id_token = make_jwt(
        r#"{"aud":["https://api.openai.com/v1"],"iss":"https://auth.openai.com","https://api.openai.com/auth":{"chatgpt_user_id":"user-profile","chatgpt_plan_type":"plus","account_id":"acc-profile"},"https://api.openai.com/profile":{"email":"profile@example.com","email_verified":true}}"#,
    );

    let (email, user_id, plan_type, _, account_id, _) =
        extract_user_info(&id_token).expect("extract profile email");

    assert_eq!(email, "profile@example.com");
    assert_eq!(user_id.as_deref(), Some("user-profile"));
    assert_eq!(plan_type.as_deref(), Some("plus"));
    assert_eq!(account_id.as_deref(), Some("acc-profile"));
}

#[test]
fn access_token_only_accounts_do_not_require_proactive_refresh() {
    let mut account = CodexAccount::new(
        "codex_access_only".to_string(),
        "access-only@example.com".to_string(),
        make_codex_tokens(
            "access-only@example.com",
            "acc-access-only",
            "org-access-only",
            "access-only",
            "rt-unused",
        ),
        0,
    );
    account.tokens.refresh_token = None;
    account.token_updated_at = Some(0);

    assert!(!is_managed_auth_refresh_due(&account, true, 1_767_225_600));
}

#[test]
fn authority_snapshot_requires_newer_refresh_marker() {
    let mut account = CodexAccount::new(
        "codex_test".to_string(),
        "demo@example.com".to_string(),
        make_codex_tokens("demo@example.com", "acc-current", "org-current", "old", "rt-old"),
        0,
    );
    account.account_id = Some("acc-current".to_string());
    account.organization_id = Some("org-current".to_string());
    account.token_updated_at = Some(2000);

    let snapshot = LocalCodexOAuthSnapshot {
        tokens: make_codex_tokens("demo@example.com", "acc-current", "org-current", "new", "rt-new"),
        email: "demo@example.com".to_string(),
        subscription_active_until: None,
        account_id: Some("acc-current".to_string()),
        organization_id: Some("org-current".to_string()),
        last_refresh_at: Some(1000),
    };
    assert!(!should_accept_authority_snapshot(&account, &snapshot, true, true));

    let newer_snapshot = LocalCodexOAuthSnapshot {
        last_refresh_at: Some(3000),
        ..snapshot
    };
    assert!(should_accept_authority_snapshot(&account, &newer_snapshot, true, true));
}

#[test]
fn detect_auth_file_plan_type_from_filename() {
    let prolite = detect_auth_file_plan_type_from_path("/tmp/codex-demo@example.com-prolite.json");
    let promax = detect_auth_file_plan_type_from_path("/tmp/codex-demo@example.com-pro-max.json");
    let team = detect_auth_file_plan_type_from_path("/tmp/codex-demo-team.json");

    assert_eq!(prolite.as_deref(), Some("prolite"));
    assert_eq!(promax.as_deref(), Some("promax"));
    assert_eq!(team, None);
}

#[test]
fn refresh_errors_are_classified() {
    assert_eq!(classify_refresh_error("invalid_grant"), CodexRefreshErrorKind::InvalidGrant);
    assert_eq!(
        classify_refresh_error("Authentication token has been INVALIDATED"),
        CodexRefreshErrorKind::RefreshTokenInvalidated
    );
    assert_eq!(classify_refresh_error("timeout"), CodexRefreshErrorKind::Other);
    assert!(is_reauth_required_refresh_error("refresh_token_expired"));
    assert!(!is_reauth_required_refresh_error("unsupported_country_region_territory"));
    assert_eq!(format_refresh_error_for_user("boom"), "Token 已过期且刷新失败: boom");
}

#[test]
fn providers_are_resolved_from_base_urls() {
    assert_eq!(normalize_api_base_url(Some("  https://x.com/v1///  ")).as_deref(), Some("https://x.com/v1"));
    assert_eq!(normalize_api_base_url(Some("   ")), None);
    assert!(is_default_openai_base_url(" HTTPS://API.OPENAI.COM/V1 "));
    assert_eq!(
        normalize_api_base_url_for_match(Some("HTTPS://Relay.Example.com:8443/V1/")).as_deref(),
        Some("https://relay.example.com:8443/v1")
    );
    let c = resolve_api_provider_config(Some("https://www.relay.example.com/v1/"), None, None, None).unwrap();
    assert_eq!(c.mode, CodexApiProviderMode::Custom);
    assert_eq!(c.base_url.as_deref(), Some("https://www.relay.example.com/v1"));
    assert_eq!(c.provider_name.as_deref(), Some("relay.example.com"));
    assert_eq!(c.provider_id.as_deref(), Some("relay_example_com"));
    let c = resolve_api_provider_config(Some("https://api.openai.com/v1/"), None, None, None).unwrap();
    assert_eq!(c.mode, CodexApiProviderMode::OpenaiBuiltin);
    assert_eq!(c.base_url, None);
    assert_eq!(
        resolve_api_provider_config(None, Some(CodexApiProviderMode::Custom), None, None).unwrap_err(),
        "自定义供应商缺少 Base URL"
    );
    let c = infer_api_provider_config(None, Some(CodexApiProviderMode::Custom), None, None);
    assert_eq!(c.mode, CodexApiProviderMode::OpenaiBuiltin);
    assert_eq!(
        derive_api_provider_id("https://relay.example.com", Some("  "), Some("My Relay")).as_deref(),
        Some("my_relay")
    );
}

#[test]
fn provider_ids_are_sanitized() {
    assert_eq!(sanitize_api_provider_id("  My--Relay!!x ").as_deref(), Some("my-relay_x"));
    assert_eq!(sanitize_api_provider_id("openai").as_deref(), Some("provider_openai"));
    assert_eq!(sanitize_api_provider_id("42relay").as_deref(), Some("provider_42relay"));
    assert_eq!(sanitize_api_provider_id("__--__"), None);
    assert_eq!(sanitize_api_provider_id(""), None);
    let once = sanitize_api_provider_id("-Relay  Pro-").unwrap();
    assert_eq!(once, "relay_pro");
    assert_eq!(sanitize_api_provider_id(&once).as_deref(), Some(once.as_str()));
}

#[test]
fn urls_and_keys() {
    assert!(is_http_like_url(" https://a.b "));
    assert!(!is_http_like_url("sk-abc"));
    assert!(is_http_like_url("HTTP://"));
    assert!(is_auth_mode_apikey(Some(" ApiKey ")));
    assert!(!is_auth_mode_apikey(None));
    assert_eq!(
        validate_api_key_credentials("sk", Some("ftp://host/x")).unwrap_err(),
        "Base URL 仅支持 http 或 https 协议"
    );
    assert_eq!(validate_api_key_credentials("   ", None).unwrap_err(), "API Key 不能为空");
}

#[test]
fn identifiers_hash_the_key() {
    let md5_abc = "900150983cd24fb0d6963f7d28e17f72";
    assert_eq!(build_api_key_email("abc"), format!("api-key-{}", &md5_abc[..8]));
    assert_eq!(build_api_key_account_id("abc"), format!("codex_apikey_{}", md5_abc));
    assert_eq!(access_token_fingerprint("abc"), &md5_abc[..12]);
    assert_eq!(
        build_account_storage_id(" a@b.c ", Some(" "), None),
        format!("codex_{:x}", md5::compute("a@b.c"))
    );
    assert_eq!(
        build_account_storage_id("a@b.c", Some("acc"), Some("org")),
        format!("codex_{:x}", md5::compute("a@b.c|acc|org"))
    );
}

#[test]
fn api_key_fields_replace_oauth_identity() {
    let mut account = CodexAccount::new(
        "id".to_string(),
        "x@y.z".to_string(),
        make_codex_tokens("x@y.z", "a", "o", "at", "rt"),
        1,
    );
    account.account_id = Some("a".to_string());
    let config = resolve_api_provider_config(Some("https://chongcodex.cn/v1"), None, None, None).unwrap();
    apply_api_key_fields(&mut account, "sk-1", config);
    assert_eq!(account.auth_mode, CodexAuthMode::Apikey);
    assert_eq!(account.plan_type.as_deref(), Some("Cockpit Api"));
    assert_eq!(account.account_name.as_deref(), Some("Codex API"));
    assert_eq!(account.account_id, None);
    assert_eq!(account.tokens.refresh_token, None);
    assert!(account.email.starts_with("api-key-"));
}

#[test]
fn token_chain_and_reauth_bookkeeping() {
    let mut account = CodexAccount::new(
        "id".to_string(),
        "x@y.z".to_string(),
        make_codex_tokens("x@y.z", "a", "o", "at", "rt"),
        1,
    );
    account.requires_reauth = true;
    account.reauth_reason = Some("Codex 登录授权缺少 refresh_token".to_string());
    account.token_generation = u64::MAX;
    mark_token_chain_updated_at(&mut account, 77);
    assert_eq!(account.token_generation, u64::MAX);
    assert_eq!(account.token_updated_at, Some(77));
    assert!(!account.requires_reauth);

    account.requires_reauth = true;
    account.reauth_reason = Some("Codex 登录授权缺少 refresh_token，无法自动续期".to_string());
    assert!(clear_stale_missing_refresh_token_reauth(&mut account));
    assert!(!account.requires_reauth);
    account.requires_reauth = true;
    account.reauth_reason = Some("other".to_string());
    assert!(!clear_stale_missing_refresh_token_reauth(&mut account));
    assert!(account.requires_reauth);

    assert!(account_has_refresh_token(&account));
    let tokens = CodexTokens { id_token: String::new(), access_token: "a".to_string(), refresh_token: Some("  ".to_string()) };
    let kept = retain_existing_refresh_token_if_missing(tokens, Some(&account));
    assert_eq!(kept.refresh_token.as_deref(), Some("rt"));
}

#[test]
fn refresh_is_due_after_eight_days() {
    let mut account = CodexAccount::new(
        "id".to_string(),
        "x@y.z".to_string(),
        make_codex_tokens("x@y.z", "a", "o", "at", "rt"),
        1,
    );
    account.token_updated_at = Some(1_000);
    assert!(!is_managed_auth_refresh_due(&account, false, 1_000 + 691_199));
    assert!(is_managed_auth_refresh_due(&account, false, 1_000 + 691_200));
    assert!(is_managed_auth_refresh_due(&account, true, 1_000));
    account.requires_reauth = true;
    assert!(!is_managed_auth_refresh_due(&account, true, 1_000));
}

#[test]
fn access_token_claims() {
    let token = make_jwt(r#"{"exp":1700000000,"https://api.openai.com/auth":{"chatgpt_account_id":"  acc-1 "}}"#);
    assert_eq!(extract_chatgpt_account_id_from_access_token(&token).as_deref(), Some("acc-1"));
    assert_eq!(decode_jwt_exp(&token), Some(1_700_000_000));
    assert_eq!(extract_chatgpt_account_id_from_access_token("not-a-jwt"), None);
    assert_eq!(decode_jwt_exp("a.b"), None);
    assert_eq!(extract_user_info("single").unwrap_err(), "无效的 JWT Token 格式");
    let no_email = make_jwt(r#"{"sub":"x"}"#);
    assert_eq!(extract_user_info(&no_email).unwrap_err(), "id_token 中缺少 email");
}

fn summary(id: &str, email: &str) -> CodexAccountSummary {
    CodexAccountSummary {
        id: id.to_string(),
        email: email.to_string(),
        plan_type: None,
        subscription_active_until: None,
        created_at: 0,
        last_used: 0,
    }
}

#[test]
fn existing_accounts_are_found_by_identity() {
    let index = CodexAccountIndex {
        accounts: vec![summary("a", "Demo@Example.com"), summary("b", "demo@example.com"), summary("c", "x@y.z")],
        current_account_id: None,
    };
    let loaded = vec![
        Some((Some("acc-1".to_string()), None)),
        Some((Some("acc-2".to_string()), Some("org".to_string()))),
        Some((None, None)),
    ];
    assert_eq!(
        find_existing_account_id(&index, &loaded, "demo@example.com", Some("acc-2"), Some(" org ")).as_deref(),
        Some("b")
    );
    assert_eq!(find_existing_account_id(&index, &loaded, "demo@example.com", Some("acc-3"), None), None);
    assert_eq!(find_existing_account_id(&index, &loaded, "demo@example.com", None, None), None);
    assert_eq!(find_existing_account_id(&index, &loaded, "X@Y.Z", None, None).as_deref(), Some("c"));
}

#[test]
fn plan_types_and_labels() {
    assert_eq!(normalize_auth_file_plan_type(Some(" Pro_Lite ")).as_deref(), Some("prolite"));
    assert_eq!(normalize_auth_file_plan_type(Some("team")), None);
    assert_eq!(format_codex_quota_metric_label(Some(300), "5h"), "5h");
    assert_eq!(format_codex_quota_metric_label(Some(10080), "Weekly"), "Weekly");
    assert_eq!(format_codex_quota_metric_label(Some(20160), "Weekly"), "2 Week");
    assert_eq!(format_codex_quota_metric_label(Some(1440), "x"), "1d");
    assert_eq!(format_codex_quota_metric_label(Some(61), "x"), "2h");
    assert_eq!(format_codex_quota_metric_label(Some(59), "x"), "59m");
    assert_eq!(format_codex_quota_metric_label(None, "fallback"), "fallback");
}

#[test]
fn account_edits() {
    let account = CodexAccount::new("id".to_string(), "x@y.z".to_string(), make_codex_tokens("x@y.z", "a", "o", "at", "rt"), 1);
    let a = update_account_tags("id", Some(account), vec!["work".to_string()]).unwrap();
    assert_eq!(a.tags, Some(vec!["work".to_string()]));
    let a = update_account_note("id", Some(a), "  hello ".to_string()).unwrap();
    assert_eq!(a.account_note.as_deref(), Some("hello"));
    assert_eq!(update_account_name("id", Some(a), "n".to_string()).unwrap_err(), "仅 API Key 账号支持重命名");
    assert_eq!(update_account_note("zz", None, "x".to_string()).unwrap_err(), "账号不存在: zz");
}

fn quota(hourly: i32, weekly: i32) -> CodexQuota {
    CodexQuota {
        hourly_percentage: hourly,
        weekly_percentage: weekly,
        hourly_window_minutes: Some(300),
        weekly_window_minutes: Some(10080),
        hourly_window_present: None,
        weekly_window_present: None,
    }
}

fn quota_account(id: &str, hourly: i32, weekly: i32, last_used: i64) -> CodexAccount {
    let mut a = CodexAccount::new(id.to_string(), format!("{}@x.y", id), make_codex_tokens("e", "a", "o", "at", "rt"), 0);
    a.quota = Some(quota(hourly, weekly));
    a.last_used = last_used;
    a
}

#[test]
fn quota_metrics_and_candidates() {
    let a = quota_account("a", 150, -5, 0);
    let ms = extract_quota_metrics(&a);
    assert_eq!(ms.len(), 2);
    assert_eq!(ms[0].percentage, 100);
    assert_eq!(ms[1].percentage, 0);
    assert_eq!(ms[1].label, "Weekly");
    let mut only_weekly = quota_account("w", 50, 60, 0);
    only_weekly.quota.as_mut().unwrap().weekly_window_present = Some(true);
    assert_eq!(extract_quota_metrics(&only_weekly).len(), 1);
    assert!(build_switch_candidate(&quota_account("b", 30, 40, 0), 20, 20).is_some());
    assert!(build_switch_candidate(&quota_account("b", 20, 40, 0), 20, 20).is_none());
    let c = build_switch_candidate(&quota_account("b", 30, 45, 0), 20, 10).unwrap();
    assert_eq!(c.min_margin, 10);
    assert_eq!(c.min_percentage, 30);
    assert_eq!(c.doubled_average, 75);
}

#[test]
fn best_candidate_is_the_first_of_the_best() {
    let c = |id: &str, h: i32, w: i32, used: i64| build_switch_candidate(&quota_account(id, h, w, used), 20, 20);
    let cands = vec![c("a", 50, 50, 5), None, c("b", 60, 40, 1), c("c", 50, 50, 5), c("d", 50, 50, 3)];
    assert_eq!(pick_best_candidate(&cands), Some(4));
    assert_eq!(pick_best_candidate(&vec![None, None]), None);
}

#[test]
fn auto_switch_picks_the_best_watched_account() {
    let accounts = vec![quota_account("cur", 10, 80, 0), quota_account("x", 60, 60, 9), quota_account("y", 90, 90, 9)];
    let picked = pick_auto_switch_target_if_needed(true, 20, 20, "all_accounts", &Vec::new(), accounts, Some("cur"));
    assert_eq!(picked.unwrap().id, "y");

    let accounts = vec![quota_account("cur", 10, 80, 0), quota_account("x", 60, 60, 9), quota_account("y", 90, 90, 9)];
    let selected = vec![" cur ".to_string(), "x".to_string(), "x".to_string()];
    let picked = pick_auto_switch_target_if_needed(true, 20, 20, " Selected_Accounts ", &selected, accounts, Some("cur"));
    assert_eq!(picked.unwrap().id, "x");

    let accounts = vec![quota_account("cur", 50, 80, 0), quota_account("y", 90, 90, 9)];
    assert!(pick_auto_switch_target_if_needed(true, 20, 20, "all_accounts", &Vec::new(), accounts, Some("cur")).is_none());
    let accounts = vec![quota_account("cur", 10, 80, 0), quota_account("y", 90, 90, 9)];
    assert!(pick_auto_switch_target_if_needed(false, 20, 20, "all_accounts", &Vec::new(), accounts, Some("cur")).is_none());
    assert_eq!(normalize_auto_switch_threshold(150), 100);
    assert_eq!(normalize_auto_switch_account_scope_mode("whatever"), "all_accounts");
    assert_eq!(
        normalize_auto_switch_selected_account_ids(&vec![" a ".to_string(), "".to_string(), "a".to_string(), "b".to_string()]),
        vec!["a".to_string(), "b".to_string()]
    );
    let accounts = vec![quota_account("a", 1, 1, 0), quota_account("b", 1, 1, 0)];
    let ids = resolve_monitored_auto_switch_account_ids("selected_accounts", &vec!["b".to_string(), "zz".to_string()], &accounts);
    assert_eq!(ids, vec!["b".to_string()]);
}

#[test]
fn quota_alerts_respect_the_cooldown() {
    let accounts = vec![quota_account("cur", 10, 80, 0), quota_account("y", 90, 90, 9)];
    let mut cooldowns = QuotaAlertCooldowns::new();
    let alert = run_quota_alert_if_needed(true, 20, 20, &accounts, Some("cur"), 1_000, &mut cooldowns).unwrap();
    assert_eq!(alert.current_account_id, "cur");
    assert_eq!(alert.lowest_percentage, 10);
    assert_eq!(alert.low_models, vec!["5h".to_string()]);
    assert_eq!(alert.recommended_account_id.as_deref(), Some("y"));
    assert_eq!(alert.threshold_display.as_deref(), Some("primary_window<=20%, secondary_window<=20%"));
    assert!(run_quota_alert_if_needed(true, 20, 20, &accounts, Some("cur"), 1_299, &mut cooldowns).is_none());
    assert!(run_quota_alert_if_needed(true, 20, 20, &accounts, Some("cur"), 1_300, &mut cooldowns).is_some());
    assert_eq!(build_quota_alert_cooldown_key("cur", 20, -1), "codex:cur:20:-1");
}

#[test]
fn codex_home_and_auth_path() {
    assert_eq!(resolve_codex_home_from_env(Some("  \"/opt/codex\" ")).as_deref(), Some("/opt/codex"));
    assert_eq!(resolve_codex_home_from_env(Some(" '' ")), None);
    assert_eq!(get_auth_json_path(None, "/home/u"), "/home/u/.codex/auth.json");
    assert_eq!(get_auth_json_path(Some("/c"), "/home/u"), "/c/auth.json");
}

#[test]
fn build_auth_file_value_omits_refresh_token_when_account_has_none() {
    let mut account = CodexAccount::new(
        "codex-cpa-account".to_string(),
        "cpa@example.com".to_string(),
        CodexTokens {
            id_token: "id.jwt.token".to_string(),
            access_token: "access.jwt.token".to_string(),
            refresh_token: None,
        },
        0,
    );
    account.account_id = Some("acc-cpa".to_string());

    let auth_file: serde_json::Value =
        serde_json::from_str(&build_auth_file_value(&account).expect("build auth file")).unwrap();
    let tokens = auth_file
        .get("tokens")
        .and_then(|value| value.as_object())
        .expect("tokens object");

    assert!(!tokens.contains_key("refresh_token"));
}

#[test]
fn auth_file_for_oauth_account_holds_tokens_and_null_api_key() {
    let mut account = CodexAccount::new(
        "codex-oauth".to_string(),
        "oauth@example.com".to_string(),
        CodexTokens {
            id_token: "id.jwt.token".to_string(),
            access_token: "access.jwt.token".to_string(),
            refresh_token: Some("  rt-1  ".to_string()),
        },
        0,
    );
    account.account_id = Some("acc-1".to_string());
    let text = auth_file_json_with_refresh(&account, "2026-04-13T00:00:00.000000Z").unwrap();
    assert_eq!(
        text,
        r#"{"OPENAI_API_KEY":null,"last_refresh":"2026-04-13T00:00:00.000000Z","tokens":{"access_token":"access.jwt.token","account_id":"acc-1","id_token":"id.jwt.token","refresh_token":"rt-1"}}"#
    );
    let value: serde_json::Value = serde_json::from_str(&text).unwrap();
    assert!(value.get("auth_mode").is_none());
    assert_eq!(value.get("OPENAI_API_KEY"), Some(&serde_json::Value::Null));
}

#[test]
fn auth_file_for_api_key_account_holds_only_the_key() {
    let account = CodexAccount::new_api_key(
        "codex_apikey_1".to_string(),
        "api@example.com".to_string(),
        " sk-test \"q\" ".to_string(),
        CodexApiProviderMode::OpenaiBuiltin,
        None,
        None,
        None,
        0,
    );
    let text = build_auth_file_value(&account).unwrap();
    assert_eq!(text, r#"{"OPENAI_API_KEY":"sk-test \"q\"","auth_mode":"apikey"}"#);
}

#[test]
fn auth_file_is_refused_without_credentials() {
    let mut oauth = CodexAccount::new(
        "codex-empty".to_string(),
        "empty@example.com".to_string(),
        CodexTokens { id_token: "id".to_string(), access_token: "   ".to_string(), refresh_token: None },
        0,
    );
    assert_eq!(
        build_auth_file_value(&oauth).unwrap_err(),
        "OAuth 账号缺少 access_token，无法写入 auth.json"
    );
    oauth.tokens.access_token = "access".to_string();
    assert!(build_auth_file_value(&oauth).is_ok());

    let mut api = CodexAccount::new_api_key(
        "codex_apikey_2".to_string(),
        "api2@example.com".to_string(),
        "sk".to_string(),
        CodexApiProviderMode::OpenaiBuiltin,
        None,
        None,
        None,
        0,
    );
    api.openai_api_key = Some("  ".to_string());
    assert_eq!(build_auth_file_value(&api).unwrap_err(), "API Key 账号缺少 OPENAI_API_KEY");
}

fn builtin_provider() -> ApiProviderConfig {
    ApiProviderConfig { mode: CodexApiProviderMode::OpenaiBuiltin, base_url: None, provider_id: None, provider_name: None }
}

fn api_key_account(key: &str) -> CodexAccount {
    CodexAccount::new_api_key(
        "codex_apikey_sync".to_string(),
        "api@example.com".to_string(),
        key.to_string(),
        CodexApiProviderMode::OpenaiBuiltin,
        None,
        None,
        None,
        0,
    )
}

#[test]
fn api_key_account_takes_base_url_of_local_auth_file() {
    let mut account = api_key_account("sk-1");
    let changed = sync_api_key_account_from_local_state(
        &mut account,
        Some("apikey"),
        Some(" sk-1 "),
        false,
        Some("https://relay.example.com/v1"),
        &builtin_provider(),
    );
    assert!(changed);
    assert_eq!(account.api_base_url.as_deref(), Some("https://relay.example.com/v1"));
    assert_eq!(account.api_provider_mode, CodexApiProviderMode::OpenaiBuiltin);
    assert_eq!(account.openai_api_key.as_deref(), Some("sk-1"));
}

#[test]
fn api_key_account_ignores_local_state_of_another_key_or_login() {
    let mut account = api_key_account("sk-1");
    assert!(!sync_api_key_account_from_local_state(
        &mut account,
        Some("apikey"),
        Some("sk-2"),
        false,
        Some("https://relay.example.com/v1"),
        &builtin_provider(),
    ));
    assert!(account.api_base_url.is_none());
    // An OAuth login in auth.json says nothing of the key's provider.
    assert!(!sync_api_key_account_from_local_state(
        &mut account,
        None,
        Some("sk-1"),
        true,
        Some("https://relay.example.com/v1"),
        &builtin_provider(),
    ));
    assert!(account.api_base_url.is_none());
    // Nothing changes when the local provider is the recorded one.
    assert!(!sync_api_key_account_from_local_state(&mut account, Some("apikey"), Some("sk-1"), false, None, &builtin_provider()));
}

#[test]
fn oauth_account_is_not_synced_from_local_api_key_state() {
    let mut account = CodexAccount::new(
        "codex-oauth-sync".to_string(),
        "oauth@example.com".to_string(),
        CodexTokens { id_token: "id".to_string(), access_token: "access".to_string(), refresh_token: None },
        0,
    );
    account.openai_api_key = Some("sk-1".to_string());
    assert!(!sync_api_key_account_from_local_state(
        &mut account,
        Some("apikey"),
        Some("sk-1"),
        false,
        Some("https://relay.example.com/v1"),
        &builtin_provider(),
    ));
    assert!(account.api_base_url.is_none());
}

#[test]
fn runtime_provider_in_config_keeps_account_provider_identity() {
    let mut account = CodexAccount::new_api_key(
        "codex_apikey_relay".to_string(),
        "relay@example.com".to_string(),
        "sk-relay".to_string(),
        CodexApiProviderMode::Custom,
        Some("https://relay.example.com/v1".to_string()),
        Some("relay".to_string()),
        Some("Relay".to_string()),
        0,
    );
    let config = ApiProviderConfig {
        mode: CodexApiProviderMode::Custom,
        base_url: Some("https://relay2.example.com/v1".to_string()),
        provider_id: Some("codex_local_access".to_string()),
        provider_name: Some("Codex Local".to_string()),
    };
    let changed = sync_api_key_account_from_local_state(&mut account, Some("apikey"), Some("sk-relay"), false, None, &config);
    assert!(changed);
    assert_eq!(account.api_base_url.as_deref(), Some("https://relay2.example.com/v1"));
    assert_eq!(account.api_provider_mode, CodexApiProviderMode::Custom);
    assert_eq!(account.api_provider_id.as_deref(), Some("relay"));
    assert_eq!(account.api_provider_name.as_deref(), Some("Relay"));
}
