use base64::Engine;
use cockpit_tools::codex_import::CodexJsonImportCandidate;
use cockpit_tools::codex_json_import::{plan_json_import, JsonImportPlan};

fn make_jwt(payload_json: &str) -> String {
    let engine = base64::engine::general_purpose::URL_SAFE_NO_PAD;
    format!(
        "{}.{}.sig",
        engine.encode(br#"{"alg":"none","typ":"JWT"}"#),
        engine.encode(payload_json.as_bytes())
    )
}

fn access_of(c: &CodexJsonImportCandidate) -> String {
    match c {
        CodexJsonImportCandidate::FullToken { tokens, .. } => tokens.access_token.clone(),
        CodexJsonImportCandidate::AccessToken { access_token, .. } => access_token.clone(),
        CodexJsonImportCandidate::RefreshToken { refresh_token, .. } => refresh_token.clone(),
    }
}

#[test]
fn plan_reads_token_lines_in_order() {
    let a = make_jwt(r#"{"email":"a@example.com"}"#);
    let b = make_jwt(r#"{"email":"b@example.com"}"#);
    let content = format!("{}\n\n{}\n", a, b);
    match plan_json_import(&content).unwrap() {
        JsonImportPlan::TokenLines { logins, stop } => {
            assert_eq!(logins.len(), 2);
            assert_eq!(access_of(&logins[0]), a);
            assert_eq!(access_of(&logins[1]), b);
            assert!(stop.is_none());
        },
        other => panic!("unexpected plan: {:?}", other),
    }
}

#[test]
fn plan_token_lines_stop_at_a_line_without_a_login() {
    let a = make_jwt(r#"{"email":"a@example.com"}"#);
    let content = format!("{}\n{{\"x\":1}}\n{}", a, a);
    match plan_json_import(&content) {
        Ok(JsonImportPlan::TokenLines { logins, stop }) => {
            assert_eq!(logins.len(), 1);
            assert!(stop.unwrap().starts_with("未找到有效的 Codex Token"));
        },
        other => panic!("unexpected plan: {:?}", other),
    }
}

#[test]
fn plan_reads_auth_json_api_key() {
    let content = r#"{"auth_mode":"apikey","OPENAI_API_KEY":" sk-test ","base_url":"https://relay.example.com/v1/","api_provider_id":"relay","api_provider_name":"Relay"}"#;
    match plan_json_import(content).unwrap() {
        JsonImportPlan::AuthFileApiKey { api_key, base_url, api_provider_id, api_provider_name, raw } => {
            assert_eq!(api_key, "sk-test");
            assert_eq!(base_url.as_deref(), Some("https://relay.example.com/v1"));
            assert_eq!(api_provider_id.as_deref(), Some("relay"));
            assert_eq!(api_provider_name.as_deref(), Some("Relay"));
            let v: serde_json::Value = serde_json::from_str(&raw).unwrap();
            assert_eq!(v["auth_mode"], "apikey");
        },
        other => panic!("unexpected plan: {:?}", other),
    }
}

#[test]
fn plan_refuses_api_key_mode_without_a_key() {
    let content = r#"{"auth_mode":"apikey","OPENAI_API_KEY":null}"#;
    assert_eq!(plan_json_import(content).unwrap_err(), "auth.json 缺少 OPENAI_API_KEY");
}

#[test]
fn plan_reads_auth_json_tokens() {
    let content = r#"{"auth_mode":"chatgpt","tokens":{"id_token":"id-1","access_token":"at-1","refresh_token":null,"account_id":"acc-1"}}"#;
    match plan_json_import(content).unwrap() {
        JsonImportPlan::AuthFileTokens { tokens } => {
            assert_eq!(tokens.id_token, "id-1");
            assert_eq!(tokens.access_token, "at-1");
            assert_eq!(tokens.refresh_token, None);
            assert_eq!(tokens.account_id.as_deref(), Some("acc-1"));
        },
        other => panic!("unexpected plan: {:?}", other),
    }
}

#[test]
fn plan_reads_an_object_without_auth_fields_as_one_value() {
    let content = r#"{"access_token":"at-2","auth_mode":5}"#;
    match plan_json_import(content).unwrap() {
        JsonImportPlan::Values { values, fallback } => {
            assert_eq!(values.len(), 1);
            let v: serde_json::Value = serde_json::from_str(&values[0]).unwrap();
            assert_eq!(v["access_token"], "at-2");
            assert_eq!(fallback.unwrap_err(), "无法解析 JSON 内容");
        },
        other => panic!("unexpected plan: {:?}", other),
    }
}

#[test]
fn plan_reads_array_items_as_values() {
    let content = r#"[{"access_token":"a"},{"access_token":"b"},{"x":1},{"y":2},{"z":3},{"w":4}]"#;
    match plan_json_import(content).unwrap() {
        JsonImportPlan::Values { values, .. } => assert_eq!(values.len(), 6),
        other => panic!("unexpected plan: {:?}", other),
    }
}

#[test]
fn plan_reads_sub2api_export() {
    let a = make_jwt(r#"{"email":"a@example.com"}"#);
    let content = format!(
        r#"{{"exported_at":"now","accounts":[{{"platform":"anthropic","type":"oauth","credentials":{{}}}},{{"platform":"OpenAI","type":"OAuth","credentials":{{"access_token":"{}"}}}}]}}"#,
        a
    );
    match plan_json_import(&content).unwrap() {
        JsonImportPlan::Sub2Api { logins, stop } => {
            assert_eq!(logins.len(), 1);
            assert_eq!(access_of(&logins[0]), a);
            assert!(stop.is_none());
        },
        other => panic!("unexpected plan: {:?}", other),
    }
}

#[test]
fn plan_refuses_sub2api_export_without_openai_accounts() {
    let content = r#"{"exported_at":"now","accounts":[{"platform":"anthropic","type":"oauth"}]}"#;
    assert_eq!(
        plan_json_import(content).unwrap_err(),
        "Sub2API JSON 中未找到可导入的 OpenAI OAuth access_token"
    );
}

#[test]
fn plan_names_the_sub2api_account_without_a_token() {
    let content = r#"{"exported_at":"now","accounts":[{"platform":"openai","type":"oauth","credentials":{}}]}"#;
    match plan_json_import(content).unwrap() {
        JsonImportPlan::Sub2Api { logins, stop } => {
            assert!(logins.is_empty());
            assert_eq!(stop.unwrap(), "Sub2API 第 1 个 OpenAI OAuth 账号缺少有效 access_token");
        },
        other => panic!("unexpected plan: {:?}", other),
    }
}

#[test]
fn plan_keeps_json_lines_behind_the_values() {
    let content = "{\"a\":1}\n{\"b\":2}\n";
    match plan_json_import(content).unwrap() {
        JsonImportPlan::Values { values, fallback } => {
            assert!(values.is_empty());
            assert_eq!(fallback.unwrap().len(), 2);
        },
        other => panic!("unexpected plan: {:?}", other),
    }
}

#[test]
fn plan_reports_a_bad_json_line() {
    let content = "{\"a\":1}\n[1,2]\n";
    match plan_json_import(content).unwrap() {
        JsonImportPlan::Values { values, fallback } => {
            assert!(values.is_empty());
            assert_eq!(fallback.unwrap_err(), "第 2 行不是 JSON 对象");
        },
        other => panic!("unexpected plan: {:?}", other),
    }
}

#[test]
fn token_line_that_is_no_json_becomes_a_json_string() {
    let values = cockpit_tools::codex_import::token_line_values_of("ab\"c\\d\tе\n").unwrap();
    assert_eq!(values, vec!["\"ab\\\"c\\\\d\\tе\"".to_string()]);
}

#[test]
fn token_line_control_characters_are_escaped_in_hex() {
    let values = cockpit_tools::codex_import::token_line_values_of("x\u{1}y\u{1f}z").unwrap();
    assert_eq!(values, vec!["\"x\\u0001y\\u001fz\"".to_string()]);
}

#[test]
fn codex_auth_file_is_read_from_its_text() {
    let f = cockpit_tools::codex_json_import::read_codex_auth_file(
        r#"{"auth_mode":"chatgpt","OPENAI_API_KEY":null,"tokens":{"id_token":"i","access_token":"a","refresh_token":"r"},"last_refresh":"2025-01-01T00:00:00Z"}"#,
    )
    .unwrap();
    assert_eq!(f.auth_mode.as_deref(), Some("chatgpt"));
    assert_eq!(f.api_key, None);
    assert_eq!(f.base_url, None);
    let t = f.tokens.unwrap();
    assert_eq!((t.id_token.as_str(), t.access_token.as_str(), t.refresh_token.as_deref(), t.account_id), ("i", "a", Some("r"), None));
    assert!(cockpit_tools::codex_json_import::read_codex_auth_file(r#"{"tokens":{"id_token":"i"}}"#).is_none());
    assert!(cockpit_tools::codex_json_import::read_codex_auth_file(r#"{"base_url":1}"#).is_none());
    assert!(cockpit_tools::codex_json_import::read_codex_auth_file("not json").is_none());
    let arr = cockpit_tools::codex_json_import::read_codex_auth_file(r#"["apikey","sk-1"]"#).unwrap();
    assert_eq!(arr.auth_mode.as_deref(), Some("apikey"));
    assert_eq!(arr.api_key.as_deref(), Some("sk-1"));
}

#[test]
fn one_json_value_is_read_in_order_of_kinds() {
    use_value_import();
}

fn use_value_import() {
    let api = cockpit_tools::codex_json_import::plan_json_value_import(
        r#"{"auth_mode":"apikey","OPENAI_API_KEY":"sk-1","api_provider_id":"relay"}"#,
        None,
    );
    match api {
        Some(cockpit_tools::codex_json_import::JsonValueImport::ApiKey(i)) => {
            assert_eq!(i.api_key, "sk-1");
            assert_eq!(i.api_provider_id.as_deref(), Some("relay"));
        },
        other => panic!("unexpected: {:?}", other),
    }
    let a = make_jwt(r#"{"email":"a@example.com"}"#);
    let login = cockpit_tools::codex_json_import::plan_json_value_import(&format!(r#"{{"access_token":"{}"}}"#, a), None);
    assert!(matches!(login, Some(cockpit_tools::codex_json_import::JsonValueImport::Login(_))));
    assert!(cockpit_tools::codex_json_import::plan_json_value_import(r#"{"x":1}"#, None).is_none());
}
