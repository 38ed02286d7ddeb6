use cockpit_tools::codex_refresh::{managed_refresh_finished, managed_refresh_start, ManagedRefreshAction, ManagedRefreshMode};
use cockpit_tools::codex_bundle::{compose_account_bundle_at, BundleWrite};
use base64::Engine;
use cockpit_tools::codex::{
    apply_auth_file_plan_type, remove_accounts, build_account_storage_id, clear_stale_missing_refresh_token_reauth, upsert_account,
    upsert_account_from_access_token, upsert_account_with_hints, upsert_api_key_account, CodexAccount, CodexAccountIndex,
    CodexAccountSummary, CodexAuthTokens, CodexTokens, LocalCodexOAuthSnapshot,
};
use cockpit_tools::codex_import::{extract_codex_import_candidate_from_value, upsert_account_from_auth_tokens, CodexJsonImportCandidate};
use cockpit_tools::codex_index::{
    index_content_is_blank, index_needs_repair, load_account_index, load_account_index_checked,
    repair_account_index_from_details, repaired_index_lists, CodexIndexError, CodexIndexFile,
};
use cockpit_tools::codex_profile::{collect_account_records, parse_account_profile_from_check_response};
use cockpit_tools::codex_projection::{
    is_bound_to_account, load_bound_api_key_account_for_projection_dir, managed_projection_dirs_for_account,
    accept_managed_projection, build_managed_projection, sync_managed_projection_from_auth_dir,
    account_bundle_plan, activate_saved_account, api_key_bundle_with_oauth, update_api_key_bound_oauth_account,
    validate_api_key_bound_oauth_account, AccountBundlePlan, ApiKeyBundleWrite,
    CodexHomeBinding,
};
use cockpit_tools::codex_config::{
    collect_managed_api_key_provider_ids, write_api_key_provider_to_config_toml, write_api_provider_to_config_toml,
};
use cockpit_tools::codex_sync::{
    build_auth_file_value, sync_account_from_authority_dir_if_current,
    apply_local_oauth_snapshot, build_local_oauth_snapshot, sync_account_from_auth_dir,
    sync_current_official_account_from_dir,
};

fn make_jwt(payload_json: &str) -> String {
    let engine = base64::engine::general_purpose::URL_SAFE_NO_PAD;
    format!(
        "{}.{}.sig",
        engine.encode(br#"{"alg":"none","typ":"JWT"}"#),
        engine.encode(payload_json.as_bytes())
    )
}

fn make_codex_tokens(email: &str, account_id: &str, organization_id: &str, suffix: &str, refresh_token: &str) -> CodexTokens {
    let id_token = make_jwt(&format!(
        r#"{{"aud":["codex-cli"],"iss":"https://auth.openai.com","email":"{}","sub":"user-{}","https://api.openai.com/auth":{{"chatgpt_user_id":"user-{}","chatgpt_plan_type":"pro","account_id":"{}","organization_id":"{}"}}}}"#,
        email, suffix, suffix, account_id, organization_id
    ));
    let access_token = make_jwt(&format!(
        r#"{{"sub":"access-{}","https://api.openai.com/auth":{{"chatgpt_account_id":"{}","organization_id":"{}"}}}}"#,
        suffix, account_id, organization_id
    ));
    CodexTokens { id_token, access_token, refresh_token: Some(refresh_token.to_string()) }
}

fn summary_of(account: &CodexAccount) -> CodexAccountSummary {
    CodexAccountSummary {
        id: account.id.clone(),
        email: account.email.clone(),
        plan_type: account.plan_type.clone(),
        subscription_active_until: account.subscription_active_until.clone(),
        created_at: account.created_at,
        last_used: account.last_used,
    }
}

fn seed_oauth_account(tokens: CodexTokens) -> (CodexAccountIndex, CodexAccount) {
    let email = "demo@example.com";
    let storage_id = build_account_storage_id(email, Some("acc-current"), Some("org-current"));
    let mut account = CodexAccount::new(storage_id, email.to_string(), tokens, 1_000);
    account.user_id = Some("user-current".to_string());
    account.plan_type = Some("pro".to_string());
    account.account_id = Some("acc-current".to_string());
    account.organization_id = Some("org-current".to_string());
    let mut index = CodexAccountIndex::new();
    index.accounts.push(summary_of(&account));
    index.current_account_id = Some(account.id.clone());
    (index, account)
}

fn copy_account(a: &CodexAccount) -> CodexAccount {
    let mut b = CodexAccount::new(
        a.id.clone(),
        a.email.clone(),
        CodexTokens {
            id_token: a.tokens.id_token.clone(),
            access_token: a.tokens.access_token.clone(),
            refresh_token: a.tokens.refresh_token.clone(),
        },
        a.created_at,
    );
    b.user_id = a.user_id.clone();
    b.plan_type = a.plan_type.clone();
    b.account_id = a.account_id.clone();
    b.organization_id = a.organization_id.clone();
    b.last_used = a.last_used;
    b
}

#[test]
fn upsert_access_token_only_account_uses_access_claims() {
    let access_token = make_jwt(
        r#"{"email":"access@example.com","sub":"user-access","https://api.openai.com/auth":{"chatgpt_account_id":"acc-access","chatgpt_user_id":"user-access","chatgpt_plan_type":"team","chatgpt_subscription_active_until":1767225600,"poid":"org-access"}}"#,
    );

    let candidate = extract_codex_import_candidate_from_value(&serde_json::to_string(&access_token).unwrap())
        .expect("raw JWT should be accepted as accessToken");
    assert!(matches!(candidate, CodexJsonImportCandidate::AccessToken { .. }));

    let mut index = CodexAccountIndex::new();
    let account = upsert_account_from_access_token(
        &mut index,
        Vec::new(),
        access_token.clone(),
        Some("imported from accessToken".to_string()),
        2_000,
    )
    .expect("upsert access token account");

    assert_eq!(account.email, "access@example.com");
    assert_eq!(account.user_id.as_deref(), Some("user-access"));
    assert_eq!(account.plan_type.as_deref(), Some("team"));
    assert_eq!(account.subscription_active_until.as_deref(), Some("1767225600"));
    assert_eq!(account.account_id.as_deref(), Some("acc-access"));
    assert_eq!(account.organization_id.as_deref(), Some("org-access"));
    assert_eq!(account.tokens.id_token, "");
    assert_eq!(account.tokens.access_token, access_token);
    assert_eq!(account.tokens.refresh_token, None);
    assert_eq!(account.account_note.as_deref(), Some("imported from accessToken"));

    assert_eq!(index.accounts.len(), 1);
    assert_eq!(index.accounts[0].id, account.id);
}

#[test]
fn upsert_auth_tokens_with_empty_id_token_uses_access_token() {
    let access_token = make_jwt(
        r#"{"email":"auth-access@example.com","sub":"auth-access-user","https://api.openai.com/auth":{"chatgpt_account_id":"acc-auth-access","chatgpt_user_id":"auth-access-user","chatgpt_plan_type":"pro","poid":"org-auth-access"}}"#,
    );

    let mut index = CodexAccountIndex::new();
    let account = upsert_account_from_auth_tokens(
        &mut index,
        Vec::new(),
        CodexAuthTokens { id_token: String::new(), access_token: access_token.clone(), refresh_token: None, account_id: None },
        3_000,
    )
    .expect("empty id_token auth tokens should import from accessToken");

    assert_eq!(account.email, "auth-access@example.com");
    assert_eq!(account.user_id.as_deref(), Some("auth-access-user"));
    assert_eq!(account.account_id.as_deref(), Some("acc-auth-access"));
    assert_eq!(account.organization_id.as_deref(), Some("org-auth-access"));
    assert_eq!(account.tokens.id_token, "");
    assert_eq!(account.tokens.access_token, access_token);
    assert_eq!(account.tokens.refresh_token, None);
}

#[test]
fn upsert_existing_account_keeps_own_refresh_token_when_import_has_none() {
    let (mut index, existing) =
        seed_oauth_account(make_codex_tokens("demo@example.com", "acc-current", "org-current", "old", "rt-existing"));
    let mut imported_tokens = make_codex_tokens("demo@example.com", "acc-current", "org-current", "new", "rt-unused");
    let imported_access_token = imported_tokens.access_token.clone();
    imported_tokens.refresh_token = None;

    let account = upsert_account(&mut index, vec![Some(copy_account(&existing))], imported_tokens, 4_000)
        .expect("upsert existing account");

    assert_eq!(account.id, existing.id);
    assert_eq!(account.tokens.access_token, imported_access_token);
    assert_eq!(account.tokens.refresh_token.as_deref(), Some("rt-existing"));
    assert_eq!(account.token_generation, 1);
    assert_eq!(account.created_at, 1_000);
    assert_eq!(index.accounts.len(), 1);
    assert_eq!(index.accounts[0].last_used, 4_000);
}

#[test]
fn upsert_access_token_only_existing_account_keeps_own_refresh_token() {
    let mut index = CodexAccountIndex::new();
    let existing = upsert_account(
        &mut index,
        Vec::new(),
        make_codex_tokens("access@example.com", "acc-access", "org-access", "old", "rt-existing"),
        5_000,
    )
    .expect("seed existing account");
    let access_token = make_jwt(
        r#"{"email":"access@example.com","sub":"user-access-new","https://api.openai.com/auth":{"chatgpt_account_id":"acc-access","chatgpt_user_id":"user-access-new","chatgpt_plan_type":"team","poid":"org-access"}}"#,
    );

    let account =
        upsert_account_from_access_token(&mut index, vec![Some(copy_account(&existing))], access_token.clone(), None, 6_000)
            .expect("upsert AT only");

    assert_eq!(account.id, existing.id);
    assert_eq!(account.tokens.access_token, access_token);
    assert_eq!(account.tokens.refresh_token.as_deref(), Some("rt-existing"));
    assert_eq!(index.accounts.len(), 1);
}

#[test]
fn upserts_report_unreadable_tokens() {
    let mut index = CodexAccountIndex::new();
    let err = upsert_account_with_hints(
        &mut index,
        Vec::new(),
        CodexTokens { id_token: "single".to_string(), access_token: "a".to_string(), refresh_token: None },
        None,
        None,
        1,
    )
    .unwrap_err();
    assert_eq!(err, "无效的 JWT Token 格式");
    assert!(index.accounts.is_empty());
    let err = upsert_account_from_access_token(&mut index, Vec::new(), "   ".to_string(), None, 1).unwrap_err();
    assert_eq!(err, "accessToken 不能为空");
}

#[test]
fn stored_login_is_found_again() {
    let mut index = CodexAccountIndex::new();
    let first = upsert_account(&mut index, Vec::new(), make_codex_tokens("a@b.c", "acc-1", "org-1", "s1", "rt-1"), 10)
        .unwrap();
    assert_eq!(index.accounts.len(), 1);
    assert_eq!(index.accounts[0].id, first.id);
    assert_eq!(index.accounts[0].email, "a@b.c");
    let hinted = upsert_account_with_hints(
        &mut index,
        vec![Some(copy_account(&first))],
        make_codex_tokens("a@b.c", "acc-1", "org-1", "s2", "rt-2"),
        Some("ignored".to_string()),
        None,
        20,
    )
    .unwrap();
    assert_eq!(hinted.id, first.id);
    assert_eq!(hinted.tokens.refresh_token.as_deref(), Some("rt-2"));
    assert_eq!(index.accounts.len(), 1);
    assert_eq!(index.accounts[0].last_used, 20);
    assert_eq!(index.accounts[0].created_at, 10);
}

#[test]
fn missing_refresh_token_reauth_is_cleared_for_access_token_only_accounts() {
    let mut tokens = make_codex_tokens("demo@example.com", "acc-current", "org-current", "access-only", "rt-unused");
    tokens.refresh_token = None;
    let (_, mut account) = seed_oauth_account(tokens);
    account.requires_reauth = true;
    account.reauth_reason =
        Some("Codex 登录授权缺少 refresh_token，无法自动续期；当前 access_token 已不可用。".to_string());

    assert!(clear_stale_missing_refresh_token_reauth(&mut account));

    assert!(!account.requires_reauth);
    assert_eq!(account.tokens.refresh_token, None);
    assert_eq!(account.reauth_reason, None);
}

#[test]
fn auth_file_plans_are_recorded_once() {
    let (_, mut account) = seed_oauth_account(make_codex_tokens("d@e.f", "a", "o", "s", "r"));
    assert!(!apply_auth_file_plan_type(&mut account, None));
    assert!(!apply_auth_file_plan_type(&mut account, Some("plus".to_string())));
    assert!(apply_auth_file_plan_type(&mut account, Some(" Pro-Lite ".to_string())));
    assert_eq!(account.auth_file_plan_type.as_deref(), Some("prolite"));
    assert!(!apply_auth_file_plan_type(&mut account, Some("prolite".to_string())));
}

#[test]
fn profile_is_read_from_the_matching_record() {
    let mut account = CodexAccount::new(
        "id".to_string(),
        "e".to_string(),
        CodexTokens { id_token: String::new(), access_token: "opaque".to_string(), refresh_token: None },
        1,
    );
    let payload = r#"{"accounts":{"x":{"id":"acc-a","name":"Team A","structure":"workspace"},"y":{"account_id":"acc-b","display_name":" Team B ","kind":"personal","organization_id":"org-b"},"z":"skip"},"account_ordering":["acc-b"]}"#;
    assert_eq!(collect_account_records(payload).len(), 2);

    let (name, structure, id) = parse_account_profile_from_check_response(payload, &account);
    assert_eq!((name.as_deref(), structure.as_deref(), id.as_deref()), (Some("Team B"), Some("personal"), Some("acc-b")));

    account.account_id = Some(" acc-a ".to_string());
    let (name, _, id) = parse_account_profile_from_check_response(payload, &account);
    assert_eq!((name.as_deref(), id.as_deref()), (Some("Team A"), Some("acc-a")));

    account.account_id = None;
    account.organization_id = Some("org-b".to_string());
    let no_order = r#"{"accounts":[{"id":"acc-a","name":"A"},{"id":"acc-c","org_id":"org-b","title":"C"}]}"#;
    let (name, _, id) = parse_account_profile_from_check_response(no_order, &account);
    assert_eq!((name.as_deref(), id.as_deref()), (Some("C"), Some("acc-c")));

    account.organization_id = None;
    let (name, _, _) = parse_account_profile_from_check_response(no_order, &account);
    assert_eq!(name.as_deref(), Some("A"));

    assert_eq!(parse_account_profile_from_check_response(r#"{"accounts":[]}"#, &account), (None, None, None));
    let bare = r#"[{"id":"acc-z","workspace_name":"Z"}]"#;
    let (name, _, id) = parse_account_profile_from_check_response(bare, &account);
    assert_eq!((name.as_deref(), id.as_deref()), (Some("Z"), Some("acc-z")));
}

fn account_at(id: &str, last_used: i64, created_at: i64) -> CodexAccount {
    let mut a = CodexAccount::new(
        id.to_string(),
        format!("{}@x", id),
        CodexTokens { id_token: String::new(), access_token: String::new(), refresh_token: None },
        created_at,
    );
    a.last_used = last_used;
    a
}

#[test]
fn index_is_rebuilt_most_recent_first() {
    assert!(repair_account_index_from_details(Some("a".to_string()), Vec::new()).is_none());
    let (index, accounts) = repair_account_index_from_details(
        Some("b".to_string()),
        vec![account_at("c", 5, 1), account_at("b", 9, 1), account_at("a", 5, 3), account_at("d", 5, 1)],
    )
    .unwrap();
    let ids: Vec<&str> = index.accounts.iter().map(|s| s.id.as_str()).collect();
    assert_eq!(ids, vec!["b", "a", "c", "d"]);
    assert_eq!(accounts.len(), 4);
    assert_eq!(index.current_account_id.as_deref(), Some("b"));
    let (index, _) = repair_account_index_from_details(Some("gone".to_string()), vec![account_at("a", 1, 1)]).unwrap();
    assert_eq!(index.current_account_id, None);
    let repaired = Some(index);
    assert!(repaired_index_lists(&repaired, "a"));
    assert!(!repaired_index_lists(&repaired, "b"));
    assert!(!repaired_index_lists(&None, "a"));
}

fn listed_index() -> CodexAccountIndex {
    let mut index = CodexAccountIndex::new();
    index.accounts.push(CodexAccountSummary {
        id: "x".to_string(),
        email: "x@y".to_string(),
        plan_type: None,
        subscription_active_until: None,
        created_at: 1,
        last_used: 1,
    });
    index
}

#[test]
fn index_loading_repairs_or_reports() {
    assert!(index_content_is_blank(" \n\t"));
    assert!(!index_content_is_blank(" {} "));
    assert!(index_needs_repair(&CodexIndexFile::Missing, false));
    assert!(!index_needs_repair(&CodexIndexFile::Unreadable("e".to_string()), false));
    assert!(index_needs_repair(&CodexIndexFile::Unreadable("e".to_string()), true));
    assert!(index_needs_repair(&CodexIndexFile::Parsed(CodexAccountIndex::new()), true));
    assert!(!index_needs_repair(&CodexIndexFile::Parsed(listed_index()), true));

    let kept = load_account_index_checked(CodexIndexFile::Parsed(listed_index()), None).unwrap();
    assert_eq!(kept.accounts.len(), 1);
    let rebuilt = load_account_index_checked(CodexIndexFile::Corrupt("bad".to_string()), Some(listed_index())).unwrap();
    assert_eq!(rebuilt.accounts[0].id, "x");
    match load_account_index_checked(CodexIndexFile::Corrupt("bad".to_string()), None) {
        Err(CodexIndexError::Corrupted(e)) => assert_eq!(e, "bad"),
        _ => panic!("a damaged index without account files is an error"),
    }
    match load_account_index_checked(CodexIndexFile::Unreadable("denied".to_string()), None) {
        Err(CodexIndexError::ReadFailed(e)) => assert_eq!(e, "读取账号索引失败: denied"),
        _ => panic!("an unreadable index without account files is an error"),
    }
    assert!(load_account_index_checked(CodexIndexFile::Blank, None).unwrap().accounts.is_empty());

    assert!(load_account_index(CodexIndexFile::Unreadable("e".to_string()), Some(listed_index())).accounts.is_empty());
    assert_eq!(load_account_index(CodexIndexFile::Missing, Some(listed_index())).accounts.len(), 1);
    assert!(load_account_index(CodexIndexFile::Corrupt("e".to_string()), None).accounts.is_empty());
}

#[test]
fn local_login_snapshots() {
    let tokens = make_codex_tokens("demo@example.com", "acc-current", "org-current", "s", "rt-1");
    let snapshot = build_local_oauth_snapshot(CodexAuthTokens {
        id_token: tokens.id_token.clone(),
        access_token: tokens.access_token.clone(),
        refresh_token: tokens.refresh_token.clone(),
        account_id: None,
    })
    .unwrap();
    assert_eq!(snapshot.email, "demo@example.com");
    assert_eq!(snapshot.account_id.as_deref(), Some("acc-current"));
    assert_eq!(snapshot.organization_id.as_deref(), Some("org-current"));
    assert!(build_local_oauth_snapshot(CodexAuthTokens {
        id_token: "x".to_string(),
        access_token: String::new(),
        refresh_token: None,
        account_id: None,
    })
    .is_none());

    let (_, mut account) = seed_oauth_account(make_codex_tokens("demo@example.com", "acc-current", "org-current", "old", "rt-0"));
    let generation = account.token_generation;
    assert!(apply_local_oauth_snapshot(&mut account, &snapshot, 77));
    assert_eq!(account.tokens.access_token, snapshot.tokens.access_token);
    assert_eq!(account.tokens.refresh_token.as_deref(), Some("rt-1"));
    assert_eq!(account.token_generation, generation + 1);
    assert_eq!(account.token_updated_at, Some(77));
    assert!(!apply_local_oauth_snapshot(&mut account, &snapshot, 88));
    assert_eq!(account.token_updated_at, Some(77));

    let other = LocalCodexOAuthSnapshot {
        tokens: CodexTokens {
            id_token: account.tokens.id_token.clone(),
            access_token: account.tokens.access_token.clone(),
            refresh_token: Some("  ".to_string()),
        },
        email: "demo@example.com".to_string(),
        subscription_active_until: Some("2030".to_string()),
        account_id: Some("acc-current".to_string()),
        organization_id: Some("org-current".to_string()),
        last_refresh_at: None,
    };
    assert!(apply_local_oauth_snapshot(&mut account, &other, 99));
    assert_eq!(account.subscription_active_until.as_deref(), Some("2030"));
    assert_eq!(account.tokens.refresh_token.as_deref(), Some("rt-1"));
    assert_eq!(account.token_updated_at, Some(77));
}

fn home(dir: &str, bind: Option<&str>) -> CodexHomeBinding {
    CodexHomeBinding { dir: dir.to_string(), bind_account_id: bind.map(|b| b.to_string()) }
}

fn projection_accounts() -> Vec<CodexAccount> {
    let oauth = CodexAccount::new(
        "oauth-1".to_string(),
        "oauth@example.com".to_string(),
        CodexTokens { id_token: "id".to_string(), access_token: "access".to_string(), refresh_token: None },
        0,
    );
    let mut bound = CodexAccount::new_api_key(
        "apikey-1".to_string(),
        "api@example.com".to_string(),
        "sk-1".to_string(),
        cockpit_tools::codex::CodexApiProviderMode::OpenaiBuiltin,
        None,
        None,
        None,
        0,
    );
    bound.bound_oauth_account_id = Some("oauth-1".to_string());
    let unbound = CodexAccount::new_api_key(
        "apikey-2".to_string(),
        "api2@example.com".to_string(),
        "sk-2".to_string(),
        cockpit_tools::codex::CodexApiProviderMode::OpenaiBuiltin,
        None,
        None,
        None,
        0,
    );
    vec![oauth, bound, unbound]
}

#[test]
fn projection_dirs_follow_direct_and_api_key_bindings_once_each() {
    let accounts = projection_accounts();
    let homes = vec![
        home("/default", Some("apikey-1")),
        home("/inst1", Some("oauth-1")),
        home("/home/.codex", Some("oauth-1")),
        home("/inst2", Some("apikey-2")),
        home("/inst3", None),
        home("/inst1", Some("oauth-1")),
    ];
    let dirs = managed_projection_dirs_for_account("oauth-1", Some("oauth-1"), "/home/.codex", &homes, &accounts);
    assert_eq!(dirs, vec!["/home/.codex".to_string(), "/default".to_string(), "/inst1".to_string()]);

    let dirs = managed_projection_dirs_for_account("oauth-1", Some("apikey-2"), "/home/.codex", &homes, &accounts);
    assert_eq!(dirs, vec!["/default".to_string(), "/inst1".to_string(), "/home/.codex".to_string()]);

    assert!(managed_projection_dirs_for_account("oauth-9", None, "/home/.codex", &homes, &accounts).is_empty());
}

#[test]
fn bound_ids_stand_for_oauth_account_through_api_key_accounts() {
    let accounts = projection_accounts();
    assert!(is_bound_to_account(Some("oauth-1"), "oauth-1", &accounts));
    assert!(is_bound_to_account(Some("apikey-1"), "oauth-1", &accounts));
    assert!(!is_bound_to_account(Some("apikey-2"), "oauth-1", &accounts));
    assert!(!is_bound_to_account(None, "oauth-1", &accounts));
}

#[test]
fn projection_dir_writes_for_the_bound_api_key_account() {
    let accounts = projection_accounts();
    let homes = vec![home("/default", Some("apikey-1")), home("/inst1", Some("oauth-1"))];
    assert_eq!(
        load_bound_api_key_account_for_projection_dir("oauth-1", "/default", Some("oauth-1"), "/home/.codex", &homes, &accounts),
        Some(1)
    );
    assert_eq!(
        load_bound_api_key_account_for_projection_dir("oauth-1", "/inst1", Some("oauth-1"), "/home/.codex", &homes, &accounts),
        None
    );
    assert_eq!(
        load_bound_api_key_account_for_projection_dir("oauth-1", "/home/.codex", Some("apikey-1"), "/home/.codex", &homes, &accounts),
        Some(1)
    );
    assert_eq!(
        load_bound_api_key_account_for_projection_dir("oauth-1", "/home/.codex", Some("apikey-2"), "/home/.codex", &homes, &accounts),
        None
    );
}

#[test]
fn api_key_account_binds_only_to_oauth_account_with_refresh_token() {
    let mut accounts = projection_accounts();
    let unbound = accounts.pop().unwrap();
    let api = accounts.pop().unwrap();
    let mut oauth = accounts.pop().unwrap();

    assert_eq!(
        validate_api_key_bound_oauth_account(&oauth, "x", None).unwrap_err(),
        "仅 API Key 账号支持绑定 OAuth 账号"
    );
    assert_eq!(validate_api_key_bound_oauth_account(&api, "   ", None).unwrap_err(), "请选择要绑定的 OAuth 账号");
    assert_eq!(validate_api_key_bound_oauth_account(&api, " apikey-1 ", None).unwrap_err(), "API Key 账号不能绑定自身");
    assert_eq!(
        validate_api_key_bound_oauth_account(&api, " oauth-9 ", None).unwrap_err(),
        "绑定的 OAuth 账号不存在: oauth-9"
    );
    assert_eq!(
        validate_api_key_bound_oauth_account(&api, "apikey-2", Some(unbound)).unwrap_err(),
        "只能绑定 OAuth 账号，不能绑定 API Key 账号"
    );
    oauth.tokens.refresh_token = Some("  ".to_string());
    assert_eq!(
        validate_api_key_bound_oauth_account(&api, "oauth-1", Some(oauth)).unwrap_err(),
        "只能绑定带 refresh_token 的 OAuth 账号"
    );
    let mut oauth = projection_accounts().remove(0);
    oauth.tokens.refresh_token = Some("rt-1".to_string());
    let bound = validate_api_key_bound_oauth_account(&api, "oauth-1", Some(oauth)).unwrap();
    assert_eq!(bound.id, "oauth-1");
}

fn home_login(tokens: &CodexTokens, account_id: &str) -> LocalCodexOAuthSnapshot {
    build_local_oauth_snapshot(CodexAuthTokens {
        id_token: tokens.id_token.clone(),
        access_token: tokens.access_token.clone(),
        refresh_token: tokens.refresh_token.clone(),
        account_id: Some(account_id.to_string()),
    })
    .expect("home login")
}

#[test]
fn sync_account_from_auth_dir_updates_store_for_managed_home() {
    let (_index, stored) =
        seed_oauth_account(make_codex_tokens("demo@example.com", "acc-current", "org-current", "seed", "rt-seed"));
    let latest_tokens = make_codex_tokens("demo@example.com", "acc-current", "org-current", "managed", "rt-managed");
    let login = home_login(&latest_tokens, "acc-current");

    let (synced, changed) =
        sync_account_from_auth_dir(&stored.id, Some(copy_account(&stored)), Some(&login), 2_000).expect("sync account");
    assert!(changed);
    assert_eq!(synced.tokens.access_token, latest_tokens.access_token);
    assert_eq!(synced.tokens.refresh_token.as_deref(), latest_tokens.refresh_token.as_deref());

    assert_eq!(sync_account_from_auth_dir(&stored.id, None, Some(&login), 2_000).unwrap_err(), format!("账号不存在: {}", stored.id));
}

#[test]
fn managed_projection_sync_requires_projection_marker() {
    let (_index, stored) =
        seed_oauth_account(make_codex_tokens("demo@example.com", "acc-current", "org-current", "seed", "rt-seed"));
    let marker = accept_managed_projection(Some(build_managed_projection(&stored, 1_500)));
    assert!(marker.is_some());

    let latest_tokens = make_codex_tokens("demo@example.com", "acc-current", "org-current", "managed", "rt-managed");
    let login = home_login(&latest_tokens, "acc-current");

    let (synced, _changed) =
        sync_managed_projection_from_auth_dir(&stored.id, marker.as_ref(), Some(copy_account(&stored)), Some(&login), 2_000)
            .expect("sync managed projection");
    assert_eq!(synced.tokens.access_token, latest_tokens.access_token);
    assert_eq!(synced.tokens.refresh_token.as_deref(), latest_tokens.refresh_token.as_deref());
    assert!(synced.token_generation > stored.token_generation);

    // Without Cockpit's marker the home is not read back.
    assert_eq!(
        sync_managed_projection_from_auth_dir(&stored.id, None, Some(copy_account(&stored)), Some(&login), 2_000)
            .unwrap_err(),
        "目标目录不是 Cockpit 受管 Codex 投影，已拒绝反向同步"
    );
}

#[test]
fn managed_projection_sync_refuses_foreign_or_stale_markers() {
    let (_index, stored) =
        seed_oauth_account(make_codex_tokens("demo@example.com", "acc-current", "org-current", "seed", "rt-seed"));
    let login = home_login(
        &make_codex_tokens("demo@example.com", "acc-current", "org-current", "managed", "rt-managed"),
        "acc-current",
    );

    let mut foreign = build_managed_projection(&stored, 1_500);
    foreign.writer = "someone-else".to_string();
    assert!(accept_managed_projection(Some(foreign)).is_none());

    let mut other = build_managed_projection(&stored, 1_500);
    other.account_id = "codex_other".to_string();
    assert_eq!(
        sync_managed_projection_from_auth_dir(&stored.id, Some(&other), Some(copy_account(&stored)), Some(&login), 2_000)
            .unwrap_err(),
        format!("受管投影账号不匹配: expected={}, actual=codex_other", stored.id)
    );

    let mut stale = build_managed_projection(&stored, 1_500);
    stale.token_generation = stored.token_generation + 1;
    assert_eq!(
        sync_managed_projection_from_auth_dir(&stored.id, Some(&stale), Some(copy_account(&stored)), Some(&login), 2_000)
            .unwrap_err(),
        format!(
            "受管投影版本已过期，跳过反向同步: account_id={}, store_generation={}, projection_generation={}",
            stored.id,
            stored.token_generation,
            stored.token_generation + 1
        )
    );

    let marker = build_managed_projection(&stored, 1_500);
    let stranger = home_login(
        &make_codex_tokens("other@example.com", "acc-other", "org-other", "x", "rt-x"),
        "acc-other",
    );
    assert_eq!(
        sync_managed_projection_from_auth_dir(&stored.id, Some(&marker), Some(copy_account(&stored)), Some(&stranger), 2_000)
            .unwrap_err(),
        "受管投影 Token 与账号不匹配，已拒绝反向同步"
    );
    assert_eq!(
        sync_managed_projection_from_auth_dir(&stored.id, Some(&marker), Some(copy_account(&stored)), None, 2_000)
            .unwrap_err(),
        "受管投影缺少可同步的 OAuth Token"
    );
}

#[test]
fn official_login_is_read_back_into_the_first_oauth_account_that_owns_it() {
    let (_index, stored) =
        seed_oauth_account(make_codex_tokens("demo@example.com", "acc-current", "org-current", "seed", "rt-seed"));
    let latest = make_codex_tokens("demo@example.com", "acc-current", "org-current", "latest", "rt-latest");
    let login = home_login(&latest, "acc-current");
    let other = CodexAccount::new(
        "codex_other".to_string(),
        "other@example.com".to_string(),
        make_codex_tokens("other@example.com", "acc-other", "org-other", "o", "rt-o"),
        1_000,
    );
    let (account, changed) =
        sync_current_official_account_from_dir(vec![other, copy_account(&stored)], Some(&login), 2_000).expect("owner");
    assert_eq!(account.id, stored.id);
    assert!(changed);
    assert_eq!(account.tokens.access_token, latest.access_token);
    assert!(sync_current_official_account_from_dir(vec![copy_account(&stored)], None, 2_000).is_none());
}

/// What writing an account's bundle leaves in a fresh Codex home: the
/// `auth.json` text and the `config.toml` text, as the library computes
/// them for `write_account_bundle_to_dir`.
fn bundle_for(api_key_account: &CodexAccount, oauth_account: &CodexAccount, stored: &Vec<CodexAccount>) -> (String, String) {
    let managed = collect_managed_api_key_provider_ids(stored);
    let provider = cockpit_tools::codex::infer_api_provider_config(
        api_key_account.api_base_url.as_deref(),
        Some(api_key_account.api_provider_mode),
        api_key_account.api_provider_id.as_deref(),
        api_key_account.api_provider_name.as_deref(),
    );
    let key = api_key_account.openai_api_key.clone().unwrap_or_default();
    match api_key_bundle_with_oauth(api_key_account, oauth_account).expect("bundle plan") {
        ApiKeyBundleWrite::ApiKeyOnly => {
            let auth = build_auth_file_value(api_key_account).expect("auth file");
            let config = write_api_key_provider_to_config_toml("", &provider, &key, &managed).expect("config");
            (auth, config)
        },
        ApiKeyBundleWrite::OAuthWithProviderOverride => {
            let auth = build_auth_file_value(oauth_account).expect("auth file");
            let builtin = cockpit_tools::codex::ApiProviderConfig {
                mode: cockpit_tools::codex::CodexApiProviderMode::OpenaiBuiltin,
                base_url: None,
                provider_id: None,
                provider_name: None,
            };
            let first = write_api_provider_to_config_toml(None, &builtin, &managed).expect("config").unwrap_or_default();
            let config = write_api_key_provider_to_config_toml(&first, &provider, &key, &managed).expect("config");
            (auth, config)
        },
    }
}

fn local_access_api_key_account(oauth_id: &str) -> CodexAccount {
    let mut api_key_account = CodexAccount::new_api_key(
        "local-access-runtime".to_string(),
        "api-service-local".to_string(),
        "local-service-key".to_string(),
        cockpit_tools::codex::CodexApiProviderMode::Custom,
        Some("http://127.0.0.1:14998/v1".to_string()),
        Some("codex_local_access".to_string()),
        Some("Codex API Service".to_string()),
        1_000,
    );
    api_key_account.bound_oauth_account_id = Some(oauth_id.to_string());
    api_key_account
}

#[test]
fn api_key_bundle_bound_to_empty_id_token_oauth_writes_api_key_auth_file() {
    let mut oauth_tokens =
        make_codex_tokens("demo@example.com", "acc-current", "org-current", "empty-id-token", "rt-empty-id-token");
    oauth_tokens.id_token = String::new();
    let (_index, oauth_account) = seed_oauth_account(oauth_tokens);
    let api_key_account = local_access_api_key_account(&oauth_account.id);

    let (auth, config) = bundle_for(&api_key_account, &oauth_account, &vec![copy_account(&oauth_account)]);
    let auth_file: serde_json::Value = serde_json::from_str(&auth).expect("parse auth file");
    assert_eq!(auth_file.get("auth_mode").and_then(|value| value.as_str()), Some("apikey"));
    assert_eq!(auth_file.get("OPENAI_API_KEY").and_then(|value| value.as_str()), Some("local-service-key"));
    assert!(
        auth_file.get("tokens").is_none(),
        "API-key local access profile should not write OAuth tokens: {}",
        auth_file
    );

    assert!(config.contains("model_provider = \"codex_local_access\""));
    assert!(config.contains("base_url = \"http://127.0.0.1:14998/v1\""));
    assert!(config.contains("experimental_bearer_token = \"local-service-key\""));
}

#[test]
fn api_key_bundle_bound_to_full_oauth_keeps_oauth_auth_file() {
    let (_index, oauth_account) =
        seed_oauth_account(make_codex_tokens("demo@example.com", "acc-current", "org-current", "full", "rt-full"));
    let api_key_account = local_access_api_key_account(&oauth_account.id);

    let (auth, config) = bundle_for(&api_key_account, &oauth_account, &vec![copy_account(&oauth_account)]);
    let auth_file: serde_json::Value = serde_json::from_str(&auth).expect("parse auth file");
    assert!(auth_file.get("auth_mode").is_none());
    assert_eq!(auth_file.get("OPENAI_API_KEY"), Some(&serde_json::Value::Null));
    assert_eq!(
        auth_file.get("tokens").and_then(|value| value.get("id_token")).and_then(|value| value.as_str()),
        Some(oauth_account.tokens.id_token.as_str())
    );

    assert!(config.contains("model_provider = \"codex_local_access\""));
    assert!(config.contains("experimental_bearer_token = \"local-service-key\""));
}

#[test]
fn api_key_bundle_plan_checks_the_binding() {
    let (_index, oauth_account) =
        seed_oauth_account(make_codex_tokens("demo@example.com", "acc-current", "org-current", "full", "rt-full"));
    let api_key_account = local_access_api_key_account("codex_someone_else");
    assert_eq!(
        api_key_bundle_with_oauth(&api_key_account, &oauth_account).unwrap_err(),
        "API Key 账号绑定的 OAuth 账号不匹配"
    );
    assert_eq!(
        api_key_bundle_with_oauth(&oauth_account, &oauth_account).unwrap_err(),
        "仅 API Key 账号支持 OAuth 绑定写入"
    );
    assert_eq!(
        api_key_bundle_with_oauth(&api_key_account, &api_key_account).unwrap_err(),
        "API Key 账号绑定目标必须是 OAuth 账号"
    );
}

#[test]
fn authority_login_is_taken_only_when_newer() {
    let (_index, stored) =
        seed_oauth_account(make_codex_tokens("demo@example.com", "acc-current", "org-current", "old", "rt-old"));
    let mut newer = home_login(
        &make_codex_tokens("demo@example.com", "acc-current", "org-current", "new", "rt-new"),
        "acc-current",
    );
    newer.last_refresh_at = Some(5_000);
    let mut account = copy_account(&stored);
    account.token_updated_at = Some(3_000);
    assert!(sync_account_from_authority_dir_if_current(&mut account, Some(&newer), false, false, 6_000));
    assert_eq!(account.tokens.refresh_token.as_deref(), Some("rt-new"));

    let mut older = home_login(
        &make_codex_tokens("demo@example.com", "acc-current", "org-current", "older", "rt-older"),
        "acc-current",
    );
    older.last_refresh_at = Some(1_000);
    let mut account = copy_account(&stored);
    account.token_updated_at = Some(3_000);
    assert!(!sync_account_from_authority_dir_if_current(&mut account, Some(&older), false, false, 6_000));
    assert_eq!(account.tokens.refresh_token.as_deref(), Some("rt-old"));
    // An expired stored token gives way to a live one even when older.
    assert!(sync_account_from_authority_dir_if_current(&mut account, Some(&older), true, false, 6_000));
    assert_eq!(account.tokens.refresh_token.as_deref(), Some("rt-older"));
}

#[test]
fn activating_an_account_makes_it_current_and_used_now() {
    let (mut index, stored) =
        seed_oauth_account(make_codex_tokens("demo@example.com", "acc-current", "org-current", "seed", "rt-seed"));
    index.current_account_id = None;
    let count = index.accounts.len();
    let activated = activate_saved_account(&mut index, copy_account(&stored), 9_000);
    assert_eq!(index.current_account_id.as_deref(), Some(stored.id.as_str()));
    assert_eq!(index.accounts.len(), count);
    assert_eq!(activated.last_used, 9_000);
    assert_eq!(activated.id, stored.id);
    assert_eq!(activated.created_at, stored.created_at);
}

#[test]
fn binding_an_api_key_account_trims_checks_and_unbinds() {
    let (_index, mut oauth) =
        seed_oauth_account(make_codex_tokens("demo@example.com", "acc-current", "org-current", "seed", "rt-seed"));
    oauth.tokens.refresh_token = Some("rt-seed".to_string());
    let oauth_id = oauth.id.clone();

    let bound = update_api_key_bound_oauth_account(
        "local-access-runtime",
        Some(local_access_api_key_account("nobody")),
        Some(format!("  {}  ", oauth_id)),
        Some(copy_account(&oauth)),
    )
    .unwrap();
    assert_eq!(bound.bound_oauth_account_id.as_deref(), Some(oauth_id.as_str()));

    let unbound =
        update_api_key_bound_oauth_account("local-access-runtime", Some(local_access_api_key_account("x")), Some("   ".to_string()), None)
            .unwrap();
    assert!(unbound.bound_oauth_account_id.is_none());

    assert_eq!(
        update_api_key_bound_oauth_account("local-access-runtime", None, None, None).unwrap_err(),
        "账号不存在: local-access-runtime"
    );
    assert_eq!(
        update_api_key_bound_oauth_account(&oauth_id, Some(copy_account(&oauth)), None, None).unwrap_err(),
        "仅 API Key 账号支持绑定 OAuth 账号"
    );
    assert_eq!(
        update_api_key_bound_oauth_account(
            "local-access-runtime",
            Some(local_access_api_key_account("x")),
            Some("codex_gone".to_string()),
            None,
        )
            .unwrap_err(),
        "绑定的 OAuth 账号不存在: codex_gone"
    );
}

#[test]
fn bundle_plan_follows_the_binding() {
    let (_index, oauth) =
        seed_oauth_account(make_codex_tokens("demo@example.com", "acc-current", "org-current", "full", "rt-full"));
    assert!(matches!(account_bundle_plan(&oauth, None).unwrap(), AccountBundlePlan::Own));

    let mut api = local_access_api_key_account("x");
    api.bound_oauth_account_id = None;
    assert!(matches!(account_bundle_plan(&api, None).unwrap(), AccountBundlePlan::Own));

    let api = local_access_api_key_account(&oauth.id);
    match account_bundle_plan(&api, Some(copy_account(&oauth))).unwrap() {
        AccountBundlePlan::WithBoundOAuth(login) => assert_eq!(login.id, oauth.id),
        other => panic!("unexpected {:?}", other),
    }

    let mut no_id_token = copy_account(&oauth);
    no_id_token.tokens.id_token = "  ".to_string();
    assert!(matches!(account_bundle_plan(&api, Some(no_id_token)).unwrap(), AccountBundlePlan::Own));

    assert_eq!(
        account_bundle_plan(&api, None).unwrap_err(),
        format!("绑定的 OAuth 账号不存在: {}", oauth.id)
    );
}

#[test]
fn api_key_login_stored_twice_keeps_one_summary() {
    let mut index = CodexAccountIndex::new();
    let first = upsert_api_key_account(&mut index, None, " sk-test ".to_string(), None, None, None, None, 10).unwrap();
    assert_eq!(index.accounts.len(), 1);
    assert!(first.id.starts_with("codex_apikey_"));
    assert_eq!(first.openai_api_key.as_deref(), Some("sk-test"));
    let again =
        upsert_api_key_account(&mut index, Some(copy_account(&first)), "sk-test".to_string(), None, None, None, None, 20).unwrap();
    assert_eq!(again.id, first.id);
    assert_eq!(again.created_at, 10);
    assert_eq!(again.last_used, 20);
    assert_eq!(index.accounts.len(), 1);
    let other = upsert_api_key_account(&mut index, None, "sk-other".to_string(), None, None, None, None, 30).unwrap();
    assert_ne!(other.id, first.id);
    assert_eq!(index.accounts.len(), 2);
    assert_ne!(index.accounts[0].id, index.accounts[1].id);
}

#[test]
fn oauth_logins_keep_ids_unique() {
    let mut index = CodexAccountIndex::new();
    let a = upsert_account(&mut index, Vec::new(), make_codex_tokens("a@b.c", "acc-1", "org-1", "s1", "rt-1"), 10).unwrap();
    let b = upsert_account(&mut index, vec![Some(copy_account(&a))], make_codex_tokens("x@y.z", "acc-2", "org-2", "s2", "rt-2"), 20)
        .unwrap();
    assert_ne!(a.id, b.id);
    assert_eq!(index.accounts.len(), 2);
    assert_ne!(index.accounts[0].id, index.accounts[1].id);
}

#[test]
fn managed_refresh_start_decides_from_the_stored_account() {
    assert_eq!(
        managed_refresh_start("missing", None, ManagedRefreshMode::Force, false, 100).unwrap_err(),
        "账号不存在: missing"
    );
    let mut index = CodexAccountIndex::new();
    let account = upsert_account(&mut index, Vec::new(), make_codex_tokens("a@b.c", "acc-1", "org-1", "s1", "rt-1"), 10)
        .unwrap();
    match managed_refresh_start(&account.id, Some(copy_account(&account)), ManagedRefreshMode::Force, false, 100).unwrap() {
        ManagedRefreshAction::Refresh { refresh_token, save, .. } => {
            assert_eq!(refresh_token, "rt-1");
            assert!(!save);
        },
        other => panic!("unexpected action: {:?}", other),
    }
    match managed_refresh_start(&account.id, Some(copy_account(&account)), ManagedRefreshMode::Prepare, false, 100).unwrap() {
        ManagedRefreshAction::Done { save, .. } => assert!(!save),
        other => panic!("unexpected action: {:?}", other),
    }
    let mut stale = copy_account(&account);
    stale.requires_reauth = true;
    stale.reauth_reason = Some("账号缺少 refresh_token".to_string());
    match managed_refresh_start(&account.id, Some(stale), ManagedRefreshMode::Prepare, false, 100).unwrap() {
        ManagedRefreshAction::Done { account, save } => {
            assert!(save);
            assert!(!account.requires_reauth);
            assert!(account.reauth_reason.is_none());
        },
        other => panic!("unexpected action: {:?}", other),
    }
    let mut blocked = copy_account(&account);
    blocked.requires_reauth = true;
    blocked.reauth_reason = Some("登录已失效".to_string());
    assert_eq!(
        managed_refresh_start(&account.id, Some(blocked), ManagedRefreshMode::Force, true, 100).unwrap_err(),
        "登录已失效"
    );
    let mut no_refresh = copy_account(&account);
    no_refresh.tokens.refresh_token = Some("  ".to_string());
    match managed_refresh_start(&account.id, Some(no_refresh), ManagedRefreshMode::Force, true, 100).unwrap() {
        ManagedRefreshAction::Done { .. } => {},
        other => panic!("unexpected action: {:?}", other),
    }
}

#[test]
fn managed_refresh_finished_takes_the_exchange_outcome() {
    let mut index = CodexAccountIndex::new();
    let account = upsert_account(&mut index, Vec::new(), make_codex_tokens("a@b.c", "acc-1", "org-1", "s1", "rt-1"), 10)
        .unwrap();
    let base = copy_account(&account);
    let generation = base.token_generation;
    let refreshed = managed_refresh_finished(
        base,
        Ok(make_codex_tokens("new@b.c", "acc-1", "org-1", "s2", "rt-2")),
        500,
    )
    .unwrap();
    assert_eq!(refreshed.tokens.refresh_token.as_deref(), Some("rt-2"));
    assert_eq!(refreshed.email, "new@b.c");
    assert_eq!(refreshed.token_generation, generation + 1);
    assert_eq!(refreshed.token_updated_at, Some(500));
    assert_eq!(refreshed.token_source_mode, "managed");
    let failure = managed_refresh_finished(copy_account(&account), Err("invalid_grant".to_string()), 500).unwrap_err();
    assert!(failure.message.starts_with("Codex 登录授权无效"));
    let marked = failure.reauth_account.unwrap();
    assert!(marked.requires_reauth);
    assert_eq!(marked.reauth_reason.as_deref(), Some(failure.message.as_str()));
    let other = managed_refresh_finished(copy_account(&account), Err("timeout".to_string()), 500).unwrap_err();
    assert_eq!(other.message, "Token 已过期且刷新失败: timeout");
    assert!(other.reauth_account.is_none());
}

#[test]
fn account_bundle_is_composed_in_order() {
    let mut index = CodexAccountIndex::new();
    let account = upsert_account(&mut index, Vec::new(), make_codex_tokens("a@b.c", "acc-1", "org-1", "s1", "rt-1"), 10)
        .unwrap();
    let managed = vec!["codex_local_access".to_string()];
    let config = Some("model = \"gpt-5\"\n[model_providers.codex_local_access]\nname = \"x\"\n".to_string());
    let bundle = compose_account_bundle_at(&account, AccountBundlePlan::Own, config, &managed, 77, "2025-01-01T00:00:00.000000Z");
    assert!(bundle.stop.is_none());
    assert_eq!(bundle.writes.len(), 3);
    match &bundle.writes[0] {
        BundleWrite::AuthJson(text) => {
            let v: serde_json::Value = serde_json::from_str(text).unwrap();
            assert_eq!(v["tokens"]["refresh_token"], "rt-1");
            assert_eq!(v["last_refresh"], "2025-01-01T00:00:00.000000Z");
        },
        other => panic!("unexpected write: {:?}", other),
    }
    match &bundle.writes[1] {
        BundleWrite::ConfigToml(text) => {
            assert!(text.contains("model = \"gpt-5\""));
            assert!(!text.contains("codex_local_access"));
        },
        other => panic!("unexpected write: {:?}", other),
    }
    match &bundle.writes[2] {
        BundleWrite::Projection(p) => {
            assert_eq!((p.version, p.writer.as_str(), p.account_id.as_str(), p.written_at), (1, "cockpit", account.id.as_str(), 77));
        },
        other => panic!("unexpected write: {:?}", other),
    }
    let no_config = compose_account_bundle_at(&account, AccountBundlePlan::Own, None, &managed, 77, "t");
    assert_eq!(no_config.writes.len(), 2);
    let mut keyless = upsert_api_key_account(&mut index, None, "sk-test".to_string(), None, None, None, None, 30).unwrap();
    keyless.openai_api_key = None;
    let refused = compose_account_bundle_at(&keyless, AccountBundlePlan::Own, None, &managed, 77, "t");
    assert!(refused.writes.is_empty());
    assert_eq!(refused.stop.as_deref(), Some("API Key 账号缺少 OPENAI_API_KEY"));
}

#[test]
fn removing_accounts_drops_only_those_and_their_bindings() {
    let mut index = CodexAccountIndex::new();
    let a = upsert_account(&mut index, Vec::new(), make_codex_tokens("a@b.c", "acc-1", "org-1", "s1", "rt-1"), 10).unwrap();
    let b = upsert_account(&mut index, vec![Some(copy_account(&a))], make_codex_tokens("x@y.z", "acc-2", "org-2", "s2", "rt-2"), 20)
        .unwrap();
    let mut key = upsert_api_key_account(&mut index, None, "sk-test".to_string(), None, None, None, None, 30).unwrap();
    key.bound_oauth_account_id = Some(a.id.clone());
    index.current_account_id = Some(a.id.clone());
    let mut accounts = vec![copy_account(&a), copy_account(&b), key];
    let changed = remove_accounts(&mut index, &mut accounts, &vec![a.id.clone(), "unknown".to_string()]);
    assert_eq!(index.accounts.len(), 2);
    assert!(index.accounts.iter().all(|s| s.id != a.id));
    assert_eq!(index.accounts[0].id, b.id);
    assert!(index.current_account_id.is_none());
    assert_eq!(changed, vec![false, false, true]);
    assert!(accounts[2].bound_oauth_account_id.is_none());
    assert_eq!(accounts.len(), 3);
    let mut index2 = CodexAccountIndex::new();
    let c = upsert_account(&mut index2, Vec::new(), make_codex_tokens("c@b.c", "acc-3", "org-3", "s3", "rt-3"), 10).unwrap();
    index2.current_account_id = Some(c.id.clone());
    let mut none: Vec<CodexAccount> = Vec::new();
    let changed = remove_accounts(&mut index2, &mut none, &vec!["other".to_string()]);
    assert!(changed.is_empty());
    assert_eq!(index2.accounts.len(), 1);
    assert_eq!(index2.current_account_id.as_deref(), Some(c.id.as_str()));
}

#[test]
fn bundle_auth_json_is_pretty_printed() {
    let mut index = CodexAccountIndex::new();
    let account = upsert_account(&mut index, Vec::new(), make_codex_tokens("a@b.c", "acc-1", "org-1", "s1", "rt-1"), 10)
        .unwrap();
    let bundle = compose_account_bundle_at(&account, AccountBundlePlan::Own, None, &Vec::new(), 77, "2025-01-01T00:00:00Z");
    match &bundle.writes[0] {
        BundleWrite::AuthJson(text) => {
            let v: serde_json::Value = serde_json::from_str(text).unwrap();
            assert_eq!(text, &serde_json::to_string_pretty(&v).unwrap());
        },
        other => panic!("unexpected write: {:?}", other),
    }
    let key = CodexAccount::new_api_key(
        "codex_apikey_1".to_string(),
        "api@example.com".to_string(),
        "sk-\"q\"".to_string(),
        cockpit_tools::codex::CodexApiProviderMode::OpenaiBuiltin,
        None,
        None,
        None,
        0,
    );
    let bundle = compose_account_bundle_at(&key, AccountBundlePlan::Own, None, &Vec::new(), 77, "t");
    match &bundle.writes[0] {
        BundleWrite::AuthJson(text) => assert_eq!(text, "{\n  \"OPENAI_API_KEY\": \"sk-\\\"q\\\"\",\n  \"auth_mode\": \"apikey\"\n}"),
        other => panic!("unexpected write: {:?}", other),
    }
}
