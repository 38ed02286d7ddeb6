use cockpit_tools::codex::{
    resolve_api_provider_config, ApiProviderConfig, CodexAccount, CodexApiProviderMode, CodexAuthMode, CodexTokens,
};
use cockpit_tools::codex_config::{
    collect_managed_api_key_provider_ids, read_api_provider_from_config_toml, read_quick_config_from_config_toml,
    remove_managed_api_key_model_providers_from_doc, write_api_key_provider_to_config_toml,
    write_api_provider_to_config_toml, write_quick_config_to_config_toml, save_quick_config,
};

fn doc(text: &str) -> toml_edit::DocumentMut {
    text.parse::<toml_edit::DocumentMut>().expect("written config parses")
}

fn managed() -> Vec<String> {
    vec!["codex_local_access".to_string(), "cockpit_api".to_string(), "openai_api_key".to_string()]
}

#[test]
fn quick_config_reads_a_custom_window() {
    let config = read_quick_config_from_config_toml("model_context_window = 400000\n").unwrap();
    assert!(!config.context_window_1m);
    assert_eq!(config.detected_model_context_window, Some(400_000));
    assert_eq!(config.auto_compact_token_limit, 900_000);
    assert_eq!(config.detected_auto_compact_token_limit, None);
}

#[test]
fn quick_config_defaults_and_limits() {
    let blank = read_quick_config_from_config_toml("  \n").unwrap();
    assert!(!blank.context_window_1m);
    assert_eq!(blank.auto_compact_token_limit, 900_000);
    let one_m = read_quick_config_from_config_toml(
        "model_context_window = 1000000\nmodel_auto_compact_token_limit = 0\n",
    )
    .unwrap();
    assert!(one_m.context_window_1m);
    assert_eq!(one_m.detected_auto_compact_token_limit, None);
    assert!(read_quick_config_from_config_toml("= broken").unwrap_err().starts_with("解析 config.toml 失败: "));
}

#[test]
fn quick_config_is_written_and_removed() {
    assert_eq!(write_quick_config_to_config_toml("", None, None).unwrap(), None);
    let written = write_quick_config_to_config_toml("model = \"gpt\"\n", Some(1_000_000), Some(800_000))
        .unwrap()
        .unwrap();
    let d = doc(&written);
    assert_eq!(d.get("model").and_then(|i| i.as_str()), Some("gpt"));
    assert_eq!(d.get("model_context_window").and_then(|i| i.as_integer()), Some(1_000_000));
    assert_eq!(d.get("model_auto_compact_token_limit").and_then(|i| i.as_integer()), Some(800_000));
    let removed = write_quick_config_to_config_toml(&written, None, None).unwrap().unwrap();
    let d = doc(&removed);
    assert!(d.get("model_context_window").is_none());
    assert!(d.get("model_auto_compact_token_limit").is_none());
    assert_eq!(
        write_quick_config_to_config_toml("", Some(0), None).unwrap_err(),
        "上下文窗口必须大于 0"
    );
    assert_eq!(
        write_quick_config_to_config_toml("", Some(5), Some(-1)).unwrap_err(),
        "自动压缩阈值必须大于 0"
    );
    let fresh = write_quick_config_to_config_toml("", Some(200_000), None).unwrap().unwrap();
    assert_eq!(read_quick_config_from_config_toml(&fresh).unwrap().detected_model_context_window, Some(200_000));
}

#[test]
fn providers_are_read_from_config() {
    let builtin = read_api_provider_from_config_toml(None);
    assert_eq!(builtin.mode, CodexApiProviderMode::OpenaiBuiltin);
    assert_eq!(builtin.base_url, None);
    let custom = read_api_provider_from_config_toml(Some(
        "model_provider = \"acme\"\n[model_providers.acme]\nname = \"Acme\"\nbase_url = \"https://acme.dev/v1/\"\n",
    ));
    assert_eq!(custom.mode, CodexApiProviderMode::Custom);
    assert_eq!(custom.base_url.as_deref(), Some("https://acme.dev/v1"));
    assert_eq!(custom.provider_id.as_deref(), Some("acme"));
    assert_eq!(custom.provider_name.as_deref(), Some("Acme"));
    let broken = read_api_provider_from_config_toml(Some("[[["));
    assert_eq!(broken.mode, CodexApiProviderMode::OpenaiBuiltin);
}

fn custom_provider() -> ApiProviderConfig {
    ApiProviderConfig {
        mode: CodexApiProviderMode::Custom,
        base_url: Some("https://acme.dev/v1".to_string()),
        provider_id: Some("acme".to_string()),
        provider_name: Some(" ".to_string()),
    }
}

#[test]
fn custom_provider_section_is_written() {
    let written = write_api_provider_to_config_toml(Some("openai_base_url = \"https://x/v1\"\n"), &custom_provider(), &managed())
        .unwrap()
        .unwrap();
    let d = doc(&written);
    assert!(d.get("openai_base_url").is_none());
    assert_eq!(d.get("model_provider").and_then(|i| i.as_str()), Some("acme"));
    let entry = d.get("model_providers").and_then(|i| i.get("acme")).unwrap();
    assert_eq!(entry.get("name").and_then(|i| i.as_str()), Some("acme"));
    assert_eq!(entry.get("base_url").and_then(|i| i.as_str()), Some("https://acme.dev/v1"));
    assert_eq!(entry.get("wire_api").and_then(|i| i.as_str()), Some("responses"));
    assert_eq!(entry.get("requires_openai_auth").and_then(|i| i.as_bool()), Some(false));
    assert_eq!(entry.get("supports_websockets").and_then(|i| i.as_bool()), Some(false));
}

#[test]
fn builtin_provider_keeps_unmanaged_sections() {
    let builtin = ApiProviderConfig {
        mode: CodexApiProviderMode::OpenaiBuiltin,
        base_url: Some("https://proxy/v1".to_string()),
        provider_id: None,
        provider_name: None,
    };
    let start = "model_provider = \"codex_local_access\"\n[model_providers.codex_local_access]\nname = \"x\"\n[model_providers.mine]\nname = \"keep\"\n";
    let written = write_api_provider_to_config_toml(Some(start), &builtin, &managed()).unwrap().unwrap();
    let d = doc(&written);
    assert!(d.get("model_provider").is_none());
    assert_eq!(d.get("openai_base_url").and_then(|i| i.as_str()), Some("https://proxy/v1"));
    let providers = d.get("model_providers").unwrap();
    assert!(providers.get("codex_local_access").is_none());
    assert!(providers.get("mine").is_some());
    let none = ApiProviderConfig { base_url: None, ..builtin };
    assert_eq!(write_api_provider_to_config_toml(None, &none, &managed()).unwrap(), None);
}

#[test]
fn custom_provider_needs_id_and_base_url() {
    let mut c = custom_provider();
    c.provider_id = None;
    assert_eq!(write_api_provider_to_config_toml(Some(""), &c, &managed()).unwrap_err(), "自定义供应商缺少 provider_id");
    let mut c = custom_provider();
    c.base_url = None;
    assert_eq!(write_api_provider_to_config_toml(Some(""), &c, &managed()).unwrap_err(), "自定义供应商缺少 Base URL");
    assert_eq!(
        write_api_provider_to_config_toml(Some("model_providers = 3\n"), &custom_provider(), &managed()).unwrap_err(),
        "config.toml 中 model_providers 不是合法表结构"
    );
}

#[test]
fn api_key_provider_replaces_managed_sections() {
    let written = write_api_key_provider_to_config_toml(
        "openai_base_url = \"https://x/v1\"\n[model_providers.cockpit_api]\nname = \"old\"\n",
        &custom_provider(),
        " sk-key ",
        &managed(),
    )
    .unwrap();
    let d = doc(&written);
    assert!(d.get("openai_base_url").is_none());
    assert_eq!(d.get("model_provider").and_then(|i| i.as_str()), Some("codex_local_access"));
    let providers = d.get("model_providers").unwrap();
    assert!(providers.get("cockpit_api").is_none());
    let entry = providers.get("codex_local_access").unwrap();
    assert_eq!(entry.get("name").and_then(|i| i.as_str()), Some("OpenAI Official"));
    assert_eq!(entry.get("base_url").and_then(|i| i.as_str()), Some("https://acme.dev/v1"));
    assert_eq!(entry.get("requires_openai_auth").and_then(|i| i.as_bool()), Some(true));
    assert_eq!(entry.get("experimental_bearer_token").and_then(|i| i.as_str()), Some("sk-key"));
    assert_eq!(
        write_api_key_provider_to_config_toml("", &custom_provider(), "  ", &managed()).unwrap_err(),
        "API Key 账号缺少可写入 provider 的密钥"
    );
}

#[test]
fn managed_provider_ids_and_removal() {
    let mut api = CodexAccount::new(
        "k".to_string(),
        "e".to_string(),
        CodexTokens { id_token: String::new(), access_token: String::new(), refresh_token: None },
        1,
    );
    api.auth_mode = CodexAuthMode::Apikey;
    api.api_provider_id = Some(" acme ".to_string());
    let mut dup = CodexAccount::new(
        "k2".to_string(),
        "e".to_string(),
        CodexTokens { id_token: String::new(), access_token: String::new(), refresh_token: None },
        1,
    );
    dup.auth_mode = CodexAuthMode::Apikey;
    dup.api_provider_id = Some("cockpit_api".to_string());
    let ids = collect_managed_api_key_provider_ids(&vec![api, dup]);
    assert_eq!(
        ids,
        vec!["codex_local_access".to_string(), "cockpit_api".to_string(), "openai_api_key".to_string(), "acme".to_string()]
    );
    let cleaned = remove_managed_api_key_model_providers_from_doc(
        "a = 1\n[model_providers.acme]\nname = \"x\"\n",
        &ids,
    );
    let d = doc(&cleaned);
    assert!(d.get("model_providers").is_none());
    assert_eq!(d.get("a").and_then(|i| i.as_integer()), Some(1));
}

fn assert_provider(actual: &ApiProviderConfig, expected: ApiProviderConfig) {
    assert_eq!(actual.mode, expected.mode);
    assert_eq!(actual.base_url, expected.base_url);
    assert_eq!(actual.provider_id, expected.provider_id);
    assert_eq!(actual.provider_name, expected.provider_name);
}

#[test]
fn config_toml_uses_openai_base_url_for_builtin_openai() {
    let provider_config = resolve_api_provider_config(
        Some("https://api.example.com/"),
        Some(CodexApiProviderMode::OpenaiBuiltin),
        None,
        None,
    )
    .expect("resolve provider config");

    let content = write_api_provider_to_config_toml(None, &provider_config, &managed())
        .expect("write config")
        .expect("config is written");

    assert!(content.contains("openai_base_url = \"https://api.example.com\""));
    assert!(!content.contains("model_provider = "));
    assert!(!content.contains("codex_local_access"));
    assert_provider(
        &read_api_provider_from_config_toml(Some(&content)),
        ApiProviderConfig {
            mode: CodexApiProviderMode::OpenaiBuiltin,
            base_url: Some("https://api.example.com".to_string()),
            provider_id: None,
            provider_name: None,
        },
    );
}

#[test]
fn config_toml_skips_default_official_endpoint_for_builtin_openai() {
    let provider_config = resolve_api_provider_config(
        Some("https://api.openai.com/v1/"),
        Some(CodexApiProviderMode::OpenaiBuiltin),
        None,
        None,
    )
    .expect("resolve provider config");

    let written = write_api_provider_to_config_toml(None, &provider_config, &managed()).expect("write config");

    assert!(written.is_none());
}

#[test]
fn config_toml_removes_runtime_provider_when_switching_to_builtin_openai() {
    let existing = r#"model_provider = "codex_local_access"
openai_base_url = "https://legacy.example.com/v1"
model_context_window = 1000000

[model_providers.codex_local_access]
name = "OpenAI Official"
base_url = "https://api.openai.com/v1"
wire_api = "responses"
requires_openai_auth = true
experimental_bearer_token = "sk-history"

[model_providers.cockpit_api]
name = "Cockpit Api"
base_url = "https://chongcodex.cn/v1"
wire_api = "responses"
requires_openai_auth = false

[model_providers.openai_api_key]
name = "OpenAI Official"
base_url = "https://api.openai.com/v1"
wire_api = "responses"
requires_openai_auth = false

[model_providers.user_manual_provider_not_managed]
name = "Manual"
base_url = "https://manual.example.com/v1"
wire_api = "responses"
requires_openai_auth = false
"#;
    let provider_config =
        resolve_api_provider_config(None, Some(CodexApiProviderMode::OpenaiBuiltin), None, None)
            .expect("resolve provider config");

    let content = write_api_provider_to_config_toml(Some(existing), &provider_config, &managed())
        .expect("write config")
        .expect("config is written");

    assert!(!content.contains("model_provider = "));
    assert!(!content.contains("[model_providers.codex_local_access]"));
    assert!(!content.contains("experimental_bearer_token = \"sk-history\""));
    assert!(!content.contains("[model_providers.cockpit_api]"));
    assert!(!content.contains("[model_providers.openai_api_key]"));
    assert!(content.contains("[model_providers.user_manual_provider_not_managed]"));
    assert!(!content.contains("openai_base_url"));
    assert!(content.contains("model_context_window = 1000000"));
    assert_provider(
        &read_api_provider_from_config_toml(Some(&content)),
        ApiProviderConfig { mode: CodexApiProviderMode::OpenaiBuiltin, base_url: None, provider_id: None, provider_name: None },
    );
}

#[test]
fn config_toml_uses_model_provider_section_for_custom_provider() {
    let provider_config = resolve_api_provider_config(
        Some("https://relay.example.com/v1/"),
        Some(CodexApiProviderMode::Custom),
        Some("relay"),
        Some("Relay"),
    )
    .expect("resolve provider config");

    let content = write_api_provider_to_config_toml(None, &provider_config, &managed())
        .expect("write config")
        .expect("config is written");

    assert!(content.contains("model_provider = \"relay\""));
    assert!(content.contains("[model_providers.relay]"));
    assert!(!content.contains("codex_local_access"));
    assert!(content.contains("name = \"Relay\""));
    assert!(content.contains("base_url = \"https://relay.example.com/v1\""));
    assert!(content.contains("wire_api = \"responses\""));
    assert!(content.contains("requires_openai_auth = false"));
    assert!(content.contains("supports_websockets = false"));
    assert!(!content.contains("openai_base_url"));
    assert_provider(
        &read_api_provider_from_config_toml(Some(&content)),
        ApiProviderConfig {
            mode: CodexApiProviderMode::Custom,
            base_url: Some("https://relay.example.com/v1".to_string()),
            provider_id: Some("relay".to_string()),
            provider_name: Some("Relay".to_string()),
        },
    );
}

#[test]
fn api_key_config_toml_uses_fixed_provider_for_default_official_endpoint() {
    let provider_config = resolve_api_provider_config(
        Some("https://api.openai.com/v1/"),
        Some(CodexApiProviderMode::OpenaiBuiltin),
        None,
        None,
    )
    .expect("resolve provider config");

    let content =
        write_api_key_provider_to_config_toml("", &provider_config, "sk-test", &managed()).expect("write config");

    assert!(content.contains("model_provider = \"codex_local_access\""));
    assert!(content.contains("[model_providers.codex_local_access]"));
    assert!(content.contains("name = \"OpenAI Official\""));
    assert!(content.contains("base_url = \"https://api.openai.com/v1\""));
    assert!(content.contains("wire_api = \"responses\""));
    assert!(content.contains("requires_openai_auth = true"));
    assert!(content.contains("experimental_bearer_token = \"sk-test\""));
    assert!(content.contains("supports_websockets = false"));
    assert!(!content.contains("openai_base_url"));
    assert_provider(
        &read_api_provider_from_config_toml(Some(&content)),
        ApiProviderConfig {
            mode: CodexApiProviderMode::Custom,
            base_url: Some("https://api.openai.com/v1".to_string()),
            provider_id: Some("codex_local_access".to_string()),
            provider_name: Some("OpenAI Official".to_string()),
        },
    );
}

#[test]
fn api_key_config_toml_uses_fixed_provider_for_custom_provider() {
    let provider_config = resolve_api_provider_config(
        Some("https://relay.example.com/v1/"),
        Some(CodexApiProviderMode::Custom),
        Some("relay"),
        Some("Relay"),
    )
    .expect("resolve provider config");

    let content =
        write_api_key_provider_to_config_toml("", &provider_config, "sk-test", &managed()).expect("write config");

    assert!(content.contains("model_provider = \"codex_local_access\""));
    assert!(content.contains("[model_providers.codex_local_access]"));
    assert!(!content.contains("[model_providers.relay]"));
    assert!(content.contains("name = \"Relay\""));
    assert!(content.contains("base_url = \"https://relay.example.com/v1\""));
    assert!(content.contains("wire_api = \"responses\""));
    assert!(content.contains("requires_openai_auth = true"));
    assert!(content.contains("experimental_bearer_token = \"sk-test\""));
    assert!(content.contains("supports_websockets = false"));
    assert!(!content.contains("openai_base_url"));
    assert_provider(
        &read_api_provider_from_config_toml(Some(&content)),
        ApiProviderConfig {
            mode: CodexApiProviderMode::Custom,
            base_url: Some("https://relay.example.com/v1".to_string()),
            provider_id: Some("codex_local_access".to_string()),
            provider_name: Some("Relay".to_string()),
        },
    );
}

#[test]
fn api_key_config_toml_preserves_unmanaged_model_provider_sections() {
    let existing = r#"model_provider = "mimo"
openai_base_url = "https://legacy.example.com/v1"
model_context_window = 1000000

[model_providers.mimo]
name = "Mimo"
base_url = "https://mimo.example.com/v1"
wire_api = "responses"
requires_openai_auth = true

[model_providers.relay]
name = "Relay"
base_url = "https://relay.example.com/v1"
wire_api = "responses"
requires_openai_auth = true
"#;
    let provider_config = resolve_api_provider_config(
        Some("https://api.openai.com/v1/"),
        Some(CodexApiProviderMode::OpenaiBuiltin),
        None,
        None,
    )
    .expect("resolve provider config");

    let content =
        write_api_key_provider_to_config_toml(existing, &provider_config, "sk-test", &managed()).expect("write config");

    assert!(content.contains("model_provider = \"codex_local_access\""));
    assert!(content.contains("[model_providers.codex_local_access]"));
    assert!(content.contains("[model_providers.mimo]"));
    assert!(content.contains("[model_providers.relay]"));
    assert!(!content.contains("openai_base_url"));
    assert!(content.contains("model_context_window = 1000000"));
}

#[test]
fn quick_config_reads_custom_context_window_without_hiding_it() {
    let quick_config = read_quick_config_from_config_toml(
        "model_context_window = 200000\nmodel_auto_compact_token_limit = 180000\n",
    )
    .expect("read quick config");
    assert!(!quick_config.context_window_1m);
    assert_eq!(quick_config.auto_compact_token_limit, 180000);
    assert_eq!(quick_config.detected_model_context_window, Some(200000));
    assert_eq!(quick_config.detected_auto_compact_token_limit, Some(180000));
}

#[test]
fn quick_config_can_enable_1m_context_window() {
    let content = write_quick_config_to_config_toml("model = \"gpt-5\"\n", Some(1_000_000), Some(880000))
        .expect("save quick config")
        .expect("config is written");
    let result = read_quick_config_from_config_toml(&content).expect("read quick config");

    assert!(content.contains("model_context_window = 1000000"));
    assert!(content.contains("model_auto_compact_token_limit = 880000"));
    assert_eq!(result.context_window_1m, true);
    assert_eq!(result.auto_compact_token_limit, 880000);
    assert_eq!(result.detected_model_context_window, Some(1_000_000));
    assert_eq!(result.detected_auto_compact_token_limit, Some(880000));
}

#[test]
fn quick_config_can_remove_managed_fields() {
    let content = write_quick_config_to_config_toml(
        "model_context_window = 1000000\nmodel_auto_compact_token_limit = 900000\nmodel = \"gpt-5\"\n",
        None,
        None,
    )
    .expect("save quick config")
    .expect("config is written");
    let result = read_quick_config_from_config_toml(&content).expect("read quick config");

    assert!(!content.contains("model_context_window"));
    assert!(!content.contains("model_auto_compact_token_limit"));
    assert!(content.contains("model = \"gpt-5\""));
    assert!(!result.context_window_1m);
    assert_eq!(result.auto_compact_token_limit, 900_000);
    assert_eq!(result.detected_model_context_window, None);
    assert_eq!(result.detected_auto_compact_token_limit, None);
}

#[test]
fn quick_config_can_write_custom_context_window_and_compact_limit() {
    let content = write_quick_config_to_config_toml("model = \"gpt-5\"\n", Some(516_000), Some(460_000))
        .expect("save quick config")
        .expect("config is written");
    let result = read_quick_config_from_config_toml(&content).expect("read quick config");

    assert!(content.contains("model_context_window = 516000"));
    assert!(content.contains("model_auto_compact_token_limit = 460000"));
    assert!(!result.context_window_1m);
    assert_eq!(result.auto_compact_token_limit, 460_000);
    assert_eq!(result.detected_model_context_window, Some(516_000));
    assert_eq!(result.detected_auto_compact_token_limit, Some(460_000));
}

#[test]
fn quick_config_rejects_non_positive_context_window() {
    let err = write_quick_config_to_config_toml("model = \"gpt-5\"\n", Some(0), Some(100_000))
        .expect_err("context window should be rejected");
    assert!(err.contains("上下文窗口必须大于 0"));
}

#[test]
fn removing_the_last_entry_of_an_implied_table_drops_the_table() {
    let content = "[model_providers.codex_local_access]\nname = \"x\"\n";
    let cleaned = remove_managed_api_key_model_providers_from_doc(content, &managed());
    assert!(doc(&cleaned).get("model_providers").is_none());
    assert!(!cleaned.contains("codex_local_access"));
    let rewritten = write_api_key_provider_to_config_toml(content, &custom_provider(), "sk-test", &managed()).unwrap();
    let d = doc(&rewritten);
    assert_eq!(d["model_provider"].as_str(), Some("codex_local_access"));
    let entry = &d["model_providers"]["codex_local_access"];
    assert_eq!(entry.get("experimental_bearer_token").and_then(|i| i.as_str()), Some("sk-test"));
    assert_eq!(entry.get("requires_openai_auth").and_then(|i| i.as_bool()), Some(true));
}

#[test]
fn saving_quick_settings_reads_them_back_and_keeps_other_keys() {
    let (written, q) = save_quick_config("model = \"gpt-5\"\n", Some(1_000_000), Some(880_000)).unwrap();
    let text = written.unwrap();
    assert!(q.context_window_1m);
    assert_eq!(q.auto_compact_token_limit, 880_000);
    assert_eq!(q.detected_model_context_window, Some(1_000_000));
    assert_eq!(q.detected_auto_compact_token_limit, Some(880_000));
    assert_eq!(doc(&text)["model"].as_str(), Some("gpt-5"));
    let (nothing, q) = save_quick_config("  \n", None, None).unwrap();
    assert!(nothing.is_none());
    assert!(!q.context_window_1m);
    assert_eq!(q.auto_compact_token_limit, 900_000);
    assert_eq!(save_quick_config("", Some(0), None).unwrap_err(), "上下文窗口必须大于 0");
    assert_eq!(save_quick_config("", None, Some(-1)).unwrap_err(), "自动压缩阈值必须大于 0");
    assert!(save_quick_config("[[[", Some(1), None).unwrap_err().starts_with("解析 config.toml 失败: "));
}
