use base64::Engine;
use cockpit_tools::codex::{CodexAccount, CodexAccountSummary, CodexApiProviderMode, CodexTokens};
use cockpit_tools::codex_compat::{
    api_key_import_from_value, apply_api_key_import_metadata, apply_compat_account_metadata,
    extract_api_base_url_from_json_value, parse_auth_file_last_refresh, parse_codex_account_compat,
    read_json_i64, read_json_string, read_json_string_array, sync_identity_from_tokens,
};
use cockpit_tools::codex_import::{
    format_io_error, is_disk_full_io_error,
    auth_file_login, AuthFileLogin,
    decode_jwt_payload_value, disk_full_import_error, extract_account_note_from_value,
    extract_codex_import_candidate_from_value, extract_codex_tokens_from_value, file_import_candidates,
    first_json_string, is_codex_session_object, is_disk_full_error_message, is_sub2api_codex_oauth_account,
    json_import_is_token_lines, line_missing_token_error, looks_like_sub2api_export,
    normalize_codex_session_value, parse_line_delimited_json_values, sub2api_candidate, token_line_candidate,
    record_file_import_outcome, token_line_values_of, CodexFileImportResult, CodexJsonImportCandidate,
};

fn make_jwt(payload_json: &str) -> String {
    let engine = base64::engine::general_purpose::URL_SAFE_NO_PAD;
    format!(
        "{}.{}.sig",
        engine.encode(br#"{"alg":"none","typ":"JWT"}"#),
        engine.encode(payload_json.as_bytes())
    )
}

fn json_string(text: &str) -> String {
    serde_json::to_string(text).unwrap()
}

fn member(value: &str, key: &str) -> Option<String> {
    let v: serde_json::Value = serde_json::from_str(value).unwrap();
    v.get(key).and_then(|x| x.as_str()).map(|s| s.to_string())
}

#[test]
fn parse_line_delimited_json_values_accepts_one_object_per_line() {
    let raw = r#"{"id_token":"id-1","access_token":"access-1"}
{"id_token":"id-2","access_token":"access-2"}"#;

    let values = parse_line_delimited_json_values(raw)
        .expect("json lines should parse")
        .expect("multiple non-empty lines should return values");

    assert_eq!(values.len(), 2);
    assert_eq!(member(&values[0], "id_token").as_deref(), Some("id-1"));
    assert_eq!(member(&values[1], "access_token").as_deref(), Some("access-2"));
}

#[test]
fn json_lines_report_the_failing_line() {
    assert!(parse_line_delimited_json_values(r#"{"a":1}"#).unwrap().is_none());
    assert!(parse_line_delimited_json_values("\n\n").unwrap().is_none());
    let not_object = parse_line_delimited_json_values("{\"a\":1}\n\n[1,2]").unwrap_err();
    assert_eq!(not_object, "第 3 行不是 JSON 对象");
    let broken = parse_line_delimited_json_values("{\"a\":1}\n{oops").unwrap_err();
    assert!(broken.starts_with("第 2 行不是有效 JSON: "));
    assert!(line_missing_token_error(0).starts_with("第 1 行未找到有效的 Codex Token"));
}

#[test]
fn compat_parses_portable_codex_token_account() {
    let id_token = make_jwt(
        r#"{"email":"portable@example.com","https://api.openai.com/auth":{"chatgpt_user_id":"user-portable","chatgpt_plan_type":"plus","account_id":"acc-portable"}}"#,
    );
    let summary = CodexAccountSummary {
        id: "stored-portable".to_string(),
        email: "summary@example.com".to_string(),
        plan_type: None,
        subscription_active_until: None,
        created_at: 100,
        last_used: 200,
    };
    let value = format!(
        r#"{{"id_token":{},"access_token":"access-token","refresh_token":"refresh-token","last_refresh":300,"type":"codex"}}"#,
        json_string(&id_token)
    );
    let account = parse_codex_account_compat(&value, "stored-portable", Some(&summary), None, None, 999)
        .expect("compat parse")
        .expect("account");

    assert_eq!(account.id, "stored-portable");
    assert_eq!(account.email, "portable@example.com");
    assert_eq!(account.user_id.as_deref(), Some("user-portable"));
    assert_eq!(account.plan_type.as_deref(), Some("plus"));
    assert_eq!(account.account_id.as_deref(), Some("acc-portable"));
    assert_eq!(account.created_at, 100);
    assert_eq!(account.last_used, 200);
    assert_eq!(account.token_updated_at, Some(300));
}

#[test]
fn compat_parses_portable_codex_api_key_account() {
    let value = r#"{"auth_mode":"apikey","OPENAI_API_KEY":"sk-test-portable","api_base_url":"https://example.com/v1","api_provider_id":"custom-openai","api_provider_name":"Custom OpenAI","email":"api@example.com","created_at":100,"last_used":200}"#;
    let account = parse_codex_account_compat(value, "stored-apikey", None, None, None, 999)
        .expect("compat parse")
        .expect("account");

    assert_eq!(account.id, "stored-apikey");
    assert!(account.is_api_key_auth());
    assert_eq!(account.email, "api@example.com");
    assert_eq!(account.openai_api_key.as_deref(), Some("sk-test-portable"));
    assert_eq!(account.api_base_url.as_deref(), Some("https://example.com/v1"));
    assert_eq!(account.api_provider_id.as_deref(), Some("custom-openai"));
    assert_eq!(account.api_provider_name.as_deref(), Some("Custom OpenAI"));
    assert_eq!(account.created_at, 100);
    assert_eq!(account.last_used, 200);
    assert_eq!(account.plan_type.as_deref(), Some("API_KEY"));
}

#[test]
fn compat_without_credentials_is_no_account() {
    assert!(parse_codex_account_compat(r#"{"email":"x@y.z"}"#, "id", None, None, None, 1).unwrap().is_none());
    assert!(parse_codex_account_compat(r#"{"auth_mode":"apikey"}"#, "id", None, None, None, 1).unwrap().is_none());
    let bad = parse_codex_account_compat(
        r#"{"auth_mode":"APIKEY","OPENAI_API_KEY":"https://example.com"}"#,
        "id",
        None,
        None,
        None,
        1,
    )
    .unwrap_err();
    assert_eq!(bad, "API Key 不能是 URL，请检查是否填反");
}

#[test]
fn compat_keeps_a_parsed_account_and_fills_its_id() {
    let tokens = cockpit_tools::codex::CodexTokens {
        id_token: String::new(),
        access_token: "a".to_string(),
        refresh_token: None,
    };
    let parsed = cockpit_tools::codex::CodexAccount::new(" ".to_string(), "e@x.y".to_string(), tokens, 5);
    let account = parse_codex_account_compat(r#"{"tags":["a"," ",""]}"#, "fallback", None, Some(parsed), None, 7)
        .unwrap()
        .unwrap();
    assert_eq!(account.id, "fallback");
    assert_eq!(account.email, "e@x.y");
    assert_eq!(account.tags, Some(vec!["a".to_string()]));
    assert_eq!(account.created_at, 7);
    assert_eq!(account.last_used, 7);
}

#[test]
fn extract_tokens_from_flat_codex_json() {
    let value = r#"{"id_token":"id.jwt.token","access_token":"access.jwt.token","refresh_token":"rt_123","account_id":"acc_1","type":"codex","email":"demo@example.com"}"#;

    let (tokens, account_id_hint) = extract_codex_tokens_from_value(value).expect("should extract tokens");

    assert_eq!(tokens.id_token, "id.jwt.token");
    assert_eq!(tokens.access_token, "access.jwt.token");
    assert_eq!(tokens.refresh_token.as_deref(), Some("rt_123"));
    assert_eq!(account_id_hint.as_deref(), Some("acc_1"));
}

#[test]
fn extract_tokens_from_flat_codex_json_falls_back_to_session_token() {
    let value = r#"{"id_token":"id.jwt.token","access_token":"access.jwt.token","refresh_token":"","session_token":"encrypted-session-token","account_id":"acc_cpa","type":"codex"}"#;

    let (tokens, account_id_hint) = extract_codex_tokens_from_value(value).expect("should extract tokens");

    assert_eq!(tokens.id_token, "id.jwt.token");
    assert_eq!(tokens.access_token, "access.jwt.token");
    assert_eq!(tokens.refresh_token.as_deref(), Some("encrypted-session-token"));
    assert_eq!(account_id_hint.as_deref(), Some("acc_cpa"));
}

#[test]
fn extract_tokens_from_nested_tokens_json() {
    let value = r#"{"tokens":{"id_token":"id.jwt.token","access_token":"access.jwt.token","refresh_token":"rt_456"},"account_id":"acc_2"}"#;

    let (tokens, account_id_hint) = extract_codex_tokens_from_value(value).expect("should extract tokens");

    assert_eq!(tokens.id_token, "id.jwt.token");
    assert_eq!(tokens.access_token, "access.jwt.token");
    assert_eq!(tokens.refresh_token.as_deref(), Some("rt_456"));
    assert_eq!(account_id_hint.as_deref(), Some("acc_2"));
}

#[test]
fn extract_tokens_from_nested_tokens_json_falls_back_to_session_token() {
    let value = r#"{"tokens":{"id_token":"id.jwt.token","access_token":"access.jwt.token","refresh_token":""},"session_token":"encrypted-session-token","account_id":"acc_nested"}"#;

    let (tokens, account_id_hint) = extract_codex_tokens_from_value(value).expect("should extract tokens");

    assert_eq!(tokens.id_token, "id.jwt.token");
    assert_eq!(tokens.access_token, "access.jwt.token");
    assert_eq!(tokens.refresh_token.as_deref(), Some("encrypted-session-token"));
    assert_eq!(account_id_hint.as_deref(), Some("acc_nested"));
}

#[test]
fn extract_tokens_from_camel_case_codex_json() {
    let value = r#"{"tokens":{"idToken":"id.jwt.token","accessToken":"access.jwt.token","refreshToken":"rt_789"},"accountId":"acc_3"}"#;

    let (tokens, account_id_hint) = extract_codex_tokens_from_value(value).expect("should extract tokens");

    assert_eq!(tokens.id_token, "id.jwt.token");
    assert_eq!(tokens.access_token, "access.jwt.token");
    assert_eq!(tokens.refresh_token.as_deref(), Some("rt_789"));
    assert_eq!(account_id_hint.as_deref(), Some("acc_3"));
}

#[test]
fn tokens_need_an_object_with_both_tokens() {
    assert!(extract_codex_tokens_from_value(r#"["id_token"]"#).is_none());
    assert!(extract_codex_tokens_from_value(r#"{"id_token":"x"}"#).is_none());
    assert!(extract_codex_tokens_from_value(r#"{"tokens":"x","id_token":"a"}"#).is_none());
    assert!(extract_codex_tokens_from_value(r#"{"id_token":"  ","access_token":"b"}"#).is_none());
}

#[test]
fn extract_candidate_preserves_existing_token_priority() {
    let access = make_jwt(r#"{"sub":"access-user"}"#);
    let full_value = format!(
        r#"{{"idToken":"id.jwt.token","accessToken":{},"refreshToken":"rt_existing"}}"#,
        json_string(&access)
    );
    let refresh_value = format!(r#"{{"refreshToken":"rt_existing","accessToken":{}}}"#, json_string(&access));
    let plain_token_value = r#"{"token":"not-a-jwt-token"}"#;

    let full_candidate =
        extract_codex_import_candidate_from_value(&full_value).expect("full token JSON should still be accepted");
    assert!(matches!(full_candidate, CodexJsonImportCandidate::FullToken { .. }));

    let refresh_candidate = extract_codex_import_candidate_from_value(&refresh_value)
        .expect("refresh token should keep priority over accessToken-only");
    assert!(matches!(refresh_candidate, CodexJsonImportCandidate::RefreshToken { .. }));

    assert!(
        extract_codex_import_candidate_from_value(plain_token_value).is_none(),
        "plain token fields should not be treated as accessToken-only"
    );
}

#[test]
fn extract_candidate_from_codex_session_json_as_cpa_tokens() {
    let access_token = make_jwt(
        r#"{"sub":"auth0|session-user","https://api.openai.com/profile":{"email":"session@example.com","email_verified":true},"https://api.openai.com/auth":{"chatgpt_account_id":"acc-session-token","chatgpt_user_id":"user-session","chatgpt_plan_type":"plus"}}"#,
    );
    let session = format!(
        r#"{{"user":{{"id":"user-session","email":"session@example.com"}},"expires":"2026-08-17T02:06:40.890Z","account":{{"id":"acc-session","planType":"plus"}},"accessToken":{},"authProvider":"openai","sessionToken":"encrypted-session"}}"#,
        json_string(&access_token)
    );

    let candidate =
        extract_codex_import_candidate_from_value(&session).expect("ChatGPT session JSON should be accepted");

    match candidate {
        CodexJsonImportCandidate::FullToken { tokens, account_id_hint, account_note } => {
            assert_eq!(tokens.id_token, tokens.access_token);
            assert_eq!(tokens.refresh_token.as_deref(), Some("encrypted-session"));
            assert_eq!(account_id_hint.as_deref(), Some("acc-session"));
            assert_eq!(account_note, None);
            assert!(decode_jwt_payload_value(&tokens.access_token).is_some());
        },
        _ => panic!("expected session JSON to be normalized to full CPA-style tokens"),
    }
}

#[test]
fn extract_candidate_from_wrapped_codex_session_json_string() {
    let access_token = make_jwt(
        r#"{"email":"wrapped-session@example.com","https://api.openai.com/auth":{"chatgpt_account_id":"acc-wrapped-session"}}"#,
    );
    let session = format!(
        r#"{{"user":{{"email":"wrapped-session@example.com"}},"account":{{"id":"acc-wrapped-session"}},"accessToken":{},"refreshToken":"rt_wrapped","authProvider":"openai"}}"#,
        json_string(&access_token)
    );
    let wrapper = format!(r#"{{"session_json":{}}}"#, json_string(&session));

    let candidate = extract_codex_import_candidate_from_value(&wrapper)
        .expect("wrapped session JSON string should be accepted");

    match candidate {
        CodexJsonImportCandidate::FullToken { tokens, account_id_hint, .. } => {
            assert_eq!(tokens.id_token, tokens.access_token);
            assert_eq!(tokens.refresh_token.as_deref(), Some("rt_wrapped"));
            assert_eq!(account_id_hint.as_deref(), Some("acc-wrapped-session"));
        },
        _ => panic!("expected wrapped session JSON to become full CPA-style tokens"),
    }
}

#[test]
fn extract_candidate_from_sub2api_account_credentials() {
    let access_token = make_jwt(
        r#"{"email":"sub2api@example.com","https://api.openai.com/auth":{"chatgpt_account_id":"acc-sub2api","chatgpt_user_id":"user-sub2api"}}"#,
    );
    let value = format!(
        r#"{{"name":"Sub2API account","notes":"imported from sub2api","platform":"openai","type":"oauth","credentials":{{"access_token":{}}}}}"#,
        json_string(&access_token)
    );

    let candidate =
        extract_codex_import_candidate_from_value(&value).expect("Sub2API account should expose access_token");

    match candidate {
        CodexJsonImportCandidate::AccessToken { access_token, account_note } => {
            assert_eq!(account_note.as_deref(), Some("imported from sub2api"));
            assert!(decode_jwt_payload_value(&access_token).is_some());
        },
        _ => panic!("expected accessToken-only candidate"),
    }
    assert!(is_sub2api_codex_oauth_account(&value));
    assert!(!is_sub2api_codex_oauth_account(r#"{"platform":"OpenAI","type":"apikey"}"#));
    assert!(is_sub2api_codex_oauth_account(r#"{"platform":" OpenAI ","type":"OAuth"}"#));
}

#[test]
fn detects_sub2api_export_wrapper() {
    let value = format!(
        r#"{{"exported_at":"2026-05-18T09:40:35Z","proxies":[],"accounts":[{{"platform":"openai","type":"oauth","credentials":{{"access_token":{}}}}}]}}"#,
        json_string(&make_jwt(r#"{"sub":"sub2api-user"}"#))
    );

    assert!(looks_like_sub2api_export(&value));
}

#[test]
fn sub2api_markers() {
    assert!(!looks_like_sub2api_export(r#"{"accounts":{}}"#));
    assert!(!looks_like_sub2api_export(r#"{"accounts":[{"platform":"openai"}]}"#));
    assert!(looks_like_sub2api_export(r#"{"accounts":[{"platform":"openai","credentials":{}}]}"#));
    let err = sub2api_candidate(r#"{"platform":"openai"}"#, 1).err().unwrap();
    assert_eq!(err, "Sub2API 第 2 个 OpenAI OAuth 账号缺少有效 access_token");
}

#[test]
fn refresh_and_access_tokens_alone() {
    let jwt = make_jwt(r#"{"sub":"u"}"#);
    match extract_codex_import_candidate_from_value(&json_string(&jwt)).unwrap() {
        CodexJsonImportCandidate::AccessToken { access_token, account_note } => {
            assert_eq!(access_token, jwt);
            assert_eq!(account_note, None);
        },
        _ => panic!("a raw JWT is an access token"),
    }
    match extract_codex_import_candidate_from_value(&json_string("  rt-plain  ")).unwrap() {
        CodexJsonImportCandidate::RefreshToken { refresh_token, .. } => assert_eq!(refresh_token, "rt-plain"),
        _ => panic!("a plain string is a refresh token"),
    }
    match extract_codex_import_candidate_from_value(r#"{"tokens":{"refreshToken":"rt-n"},"remark":" r "}"#).unwrap() {
        CodexJsonImportCandidate::RefreshToken { refresh_token, account_note } => {
            assert_eq!(refresh_token, "rt-n");
            assert_eq!(account_note.as_deref(), Some("r"));
        },
        _ => panic!("nested refresh token"),
    }
    assert!(extract_codex_import_candidate_from_value("42").is_none());
    assert!(decode_jwt_payload_value("a.b").is_none());
    assert!(decode_jwt_payload_value(&make_jwt("not json")).is_none());
}

#[test]
fn sessions_are_found_and_bounded() {
    let access = make_jwt(r#"{"sub":"s"}"#);
    let session = format!(r#"{{"accessToken":{},"expires":"x"}}"#, json_string(&access));
    assert!(is_codex_session_object(&session));
    assert!(!is_codex_session_object(&format!(r#"{{"accessToken":{}}}"#, json_string(&access))));
    assert!(!is_codex_session_object(r#"{"accessToken":"not-jwt","expires":"x"}"#));
    let nested = format!(r#"{{"session":{}}}"#, session);
    assert!(normalize_codex_session_value(&nested, 0).is_some());
    assert!(normalize_codex_session_value(&nested, 4).is_none());
    assert!(normalize_codex_session_value(r#"{"session_json":"not json"}"#, 0).is_none());
    let provider_only = format!(r#"{{"accessToken":{},"authProvider":"OpenAI"}}"#, json_string(&access));
    assert!(is_codex_session_object(&provider_only));
}

#[test]
fn token_lines_and_their_values() {
    assert!(json_import_is_token_lines("rt-1\nrt-2"));
    assert!(!json_import_is_token_lines("  {\"a\":1}"));
    assert!(!json_import_is_token_lines(" [1]"));
    assert!(!json_import_is_token_lines("   "));
    assert_eq!(token_line_values_of("  \n \n").unwrap_err(), "Token 不能为空");
    let values = token_line_values_of("rt-1\n[{\"a\":1},{\"b\":2}]\n\n  {\"c\":3}  ").unwrap();
    assert_eq!(values, vec!["\"rt-1\"".to_string(), "{\"a\":1}".to_string(), "{\"b\":2}".to_string(), "{\"c\":3}".to_string()]);
    assert!(token_line_candidate("{\"a\":1}").unwrap_err().starts_with("未找到有效的 Codex Token"));
    assert!(matches!(token_line_candidate("\"rt-1\"").unwrap(), CodexJsonImportCandidate::RefreshToken { .. }));
}

#[test]
fn notes_and_first_strings() {
    assert_eq!(extract_account_note_from_value(r#"{"note":"  ","notes":" n "}"#).as_deref(), Some("n"));
    assert_eq!(extract_account_note_from_value(r#"["note"]"#), None);
    let paths: [&[&str]; 2] = [&["a", "b"], &["c"]];
    assert_eq!(first_json_string(r#"{"a":{"b":" x "},"c":"y"}"#, &paths).as_deref(), Some("x"));
    assert_eq!(first_json_string(r#"{"a":{"b":1},"c":"y"}"#, &paths).as_deref(), Some("y"));
    assert_eq!(first_json_string(r#"{"a":{}}"#, &paths), None);
}

#[test]
fn parses_auth_file_last_refresh_variants() {
    assert_eq!(parse_auth_file_last_refresh(Some("\"2026-04-13T00:00:00.000000Z\"")), Some(1_776_038_400));
    assert_eq!(parse_auth_file_last_refresh(Some("1765497600123")), Some(1_765_497_600));
    assert_eq!(parse_auth_file_last_refresh(Some("1765497600")), Some(1_765_497_600));
}

#[test]
fn last_refresh_edges() {
    assert_eq!(parse_auth_file_last_refresh(None), None);
    assert_eq!(parse_auth_file_last_refresh(Some("\"  \"")), None);
    assert_eq!(parse_auth_file_last_refresh(Some("\" 1700000000000 \"")), Some(1_700_000_000));
    assert_eq!(parse_auth_file_last_refresh(Some("\"later\"")), None);
    assert_eq!(parse_auth_file_last_refresh(Some("1.5")), None);
    assert_eq!(parse_auth_file_last_refresh(Some("18446744073709551615")), Some(18_446_744_073_709_551));
    assert_eq!(parse_auth_file_last_refresh(Some("true")), None);
}

#[test]
fn loose_field_readers() {
    let value = r#"{"a":" ","b":"x","n":"12","m":7,"big":18446744073709551615,"t":[" a ",1,"","b"],"u":[]}"#;
    assert_eq!(read_json_string(value, &["a", "b"]), None);
    assert_eq!(read_json_string(value, &["zz", "b"]).as_deref(), Some("x"));
    assert_eq!(read_json_i64(value, &["n"]), Some(12));
    assert_eq!(read_json_i64(value, &["big", "m"]), Some(7));
    assert_eq!(read_json_string_array(value, &["t"]), Some(vec!["a".to_string(), "b".to_string()]));
    assert_eq!(read_json_string_array(value, &["u", "t"]), None);
    assert_eq!(
        extract_api_base_url_from_json_value(r#"{"api_base_url":" https://x.y/v1/ "}"#).as_deref(),
        Some("https://x.y/v1")
    );
}

#[test]
fn api_key_imports_and_metadata() {
    let value = r#"{"authMode":"ApiKey","OPENAI_API_KEY":" sk-1 ","base_url":"https://h/v1","api_provider_name":"N","account_name":"Work","tags":["x"]}"#;
    let import = api_key_import_from_value(value).unwrap();
    assert_eq!(import.api_key, "sk-1");
    assert_eq!(import.api_base_url.as_deref(), Some("https://h/v1"));
    assert_eq!(import.api_provider_id, None);
    assert_eq!(import.api_provider_name.as_deref(), Some("N"));
    assert!(api_key_import_from_value(r#"{"OPENAI_API_KEY":"sk"}"#).is_none());

    let tokens = cockpit_tools::codex::CodexTokens {
        id_token: String::new(),
        access_token: String::new(),
        refresh_token: None,
    };
    let mut account = cockpit_tools::codex::CodexAccount::new("i".to_string(), "e".to_string(), tokens, 1);
    account.account_note = Some("keep".to_string());
    apply_api_key_import_metadata(&mut account, value);
    assert_eq!(account.account_name.as_deref(), Some("Work"));
    assert_eq!(account.account_note.as_deref(), Some("keep"));
    assert_eq!(account.tags, Some(vec!["x".to_string()]));

    let mut blank = cockpit_tools::codex::CodexAccount::new(
        "id-9".to_string(),
        " ".to_string(),
        cockpit_tools::codex::CodexTokens { id_token: String::new(), access_token: String::new(), refresh_token: None },
        1,
    );
    apply_compat_account_metadata(&mut blank, r#"{"lastUsed":"1700000000000"}"#, None, 50);
    assert_eq!(blank.email, "id-9");
    assert_eq!(blank.created_at, 50);
    assert_eq!(blank.last_used, 1_700_000_000);
    let _ = CodexApiProviderMode::Custom;
}

#[test]
fn identity_is_synced_from_tokens() {
    let id_token = make_jwt(
        r#"{"email":"who@x.y","https://api.openai.com/auth":{"chatgpt_user_id":"u1","chatgpt_plan_type":"pro","organization_id":"o1"}}"#,
    );
    let mut account = cockpit_tools::codex::CodexAccount::new(
        "i".to_string(),
        "old@x.y".to_string(),
        cockpit_tools::codex::CodexTokens { id_token, access_token: "opaque".to_string(), refresh_token: None },
        1,
    );
    account.account_id = Some(" kept ".to_string());
    sync_identity_from_tokens(&mut account);
    assert_eq!(account.email, "who@x.y");
    assert_eq!(account.user_id.as_deref(), Some("u1"));
    assert_eq!(account.plan_type.as_deref(), Some("pro"));
    assert_eq!(account.account_id.as_deref(), Some("kept"));
    assert_eq!(account.organization_id.as_deref(), Some("o1"));

    let mut unreadable = cockpit_tools::codex::CodexAccount::new(
        "i".to_string(),
        "old@x.y".to_string(),
        cockpit_tools::codex::CodexTokens { id_token: "x".to_string(), access_token: "y".to_string(), refresh_token: None },
        1,
    );
    sync_identity_from_tokens(&mut unreadable);
    assert_eq!(unreadable.email, "old@x.y");
}

#[test]
fn file_imports() {
    assert!(file_import_candidates("not json", "f", &None).is_none());
    assert!(file_import_candidates("{\"a\":1}", "f", &None).is_none());
    let one = file_import_candidates(
        r#"{"id_token":"i","access_token":"a"}"#,
        "demo",
        &Some("prolite".to_string()),
    )
    .unwrap();
    assert_eq!(one.len(), 1);
    assert_eq!(one[0].label, "demo");
    assert_eq!(one[0].auth_file_plan_type.as_deref(), Some("prolite"));
    let many = file_import_candidates(
        r#"[{"id_token":"i","access_token":"a","email":"x@y"},{"nothing":1},{"id_token":"j","access_token":"b"}]"#,
        "file",
        &None,
    )
    .unwrap();
    assert_eq!(many.len(), 2);
    assert_eq!(many[0].label, "x@y");
    assert_eq!(many[1].label, "file");
    assert_eq!(many[1].tokens.id_token, "j");
    assert!(is_disk_full_error_message("IO: No space left on device"));
    assert!(is_disk_full_error_message("写入失败: 磁盘空间不足"));
    assert!(!is_disk_full_error_message("timeout"));
    assert_eq!(disk_full_import_error(3, "E"), "磁盘空间不足，已终止导入（已成功 3 个）。E");
}

fn stored_account(id: &str, email: &str) -> CodexAccount {
    CodexAccount::new(
        id.to_string(),
        email.to_string(),
        CodexTokens { id_token: "id".to_string(), access_token: "access".to_string(), refresh_token: None },
        100,
    )
}

#[test]
fn file_import_outcomes_collect_accounts_and_failures() {
    let mut result = CodexFileImportResult::new();
    let ok = record_file_import_outcome(
        &mut result,
        "a".to_string(),
        Ok(vec![stored_account("codex_a", "a@example.com"), stored_account("codex_b", "b@example.com")]),
    );
    assert!(ok.is_ok());
    let failed = record_file_import_outcome(&mut result, "c@example.com".to_string(), Err("bad token".to_string()));
    assert!(failed.is_ok());
    assert_eq!(result.imported.len(), 2);
    assert_eq!(result.imported[0].id, "codex_a");
    assert_eq!(result.imported[1].id, "codex_b");
    assert_eq!(result.failed.len(), 1);
    assert_eq!(result.failed[0].email, "c@example.com");
    assert_eq!(result.failed[0].error, "bad token");
}

#[test]
fn file_import_stops_on_full_disk() {
    let mut result = CodexFileImportResult::new();
    record_file_import_outcome(&mut result, "a".to_string(), Ok(vec![stored_account("codex_a", "a@example.com")]))
        .unwrap();
    let stopped = record_file_import_outcome(
        &mut result,
        "b".to_string(),
        Err("写入失败: No space left on device (os error 28)".to_string()),
    );
    assert_eq!(
        stopped.unwrap_err(),
        "磁盘空间不足，已终止导入（已成功 1 个）。写入失败: No space left on device (os error 28)"
    );
    assert_eq!(result.imported.len(), 1);
    assert!(result.failed.is_empty());
}

#[test]
fn auth_file_login_prefers_api_key_mode_then_tokens_then_key() {
    match auth_file_login(Some(" ApiKey "), Some(" sk-1 "), true).unwrap() {
        AuthFileLogin::ApiKey { api_key } => assert_eq!(api_key, "sk-1"),
        other => panic!("unexpected {:?}", other),
    }
    assert_eq!(auth_file_login(Some("apikey"), Some("  "), false).unwrap_err(), "auth.json 缺少 OPENAI_API_KEY");
    assert!(matches!(auth_file_login(None, Some("sk-1"), true).unwrap(), AuthFileLogin::Tokens));
    match auth_file_login(Some("chatgpt"), Some("sk-2"), false).unwrap() {
        AuthFileLogin::ApiKey { api_key } => assert_eq!(api_key, "sk-2"),
        other => panic!("unexpected {:?}", other),
    }
    assert!(matches!(auth_file_login(None, None, false).unwrap(), AuthFileLogin::Neither));
}

#[test]
fn io_errors_name_a_full_disk_by_its_code() {
    assert!(is_disk_full_io_error(Some(28)));
    assert!(is_disk_full_io_error(Some(112)));
    assert!(!is_disk_full_io_error(Some(13)));
    assert!(!is_disk_full_io_error(None));

    let full = format_io_error("创建导入目录", "/data/import", Some(28), "No space left on device (os error 28)");
    assert_eq!(full, "DISK_FULL:创建导入目录失败: path=/data/import, 磁盘空间不足，请清理磁盘后重试");
    assert!(is_disk_full_error_message(&full));

    let denied = format_io_error("创建导入目录", "/data/import", Some(13), "Permission denied (os error 13)");
    assert_eq!(denied, "创建导入目录失败: path=/data/import, error=Permission denied (os error 13)");
    assert!(!is_disk_full_error_message(&denied));
}
