//! Codex's `config.toml`: the quick settings (context window, automatic
//! compaction) and the API provider it points at, read and written through
//! toml_edit documents carried as text.
use vstd::prelude::*;
use crate::external::{
    new_toml, parse_toml, toml_contains, toml_doc, toml_entry_is_table, toml_entry_str, toml_entry_table,
    toml_get_entry_str, toml_get_int, toml_get_str, toml_has, toml_int, toml_key_is_table, toml_remove,
    toml_remove_entry, toml_set_entry_bool, toml_set_entry_str, toml_set_entry_table, toml_set_int, toml_set_str,
    toml_set_table, toml_str, toml_table, toml_table_contains, toml_table_empty, toml_table_has,
    toml_table_is_empty, toml_with_entry_bool, toml_with_entry_str, toml_with_entry_table, toml_with_int,
    toml_with_str, toml_with_table, toml_without, toml_without_entry,
    toml_reads_alike,
};
use crate::codex::{
    infer_api_provider_config, non_blank, normalize_api_base_url, normalize_api_key, normalize_api_provider_name,
    normalize_optional_ref, normalized_base_url, normalized_opt, provider_view, resolved_provider,
    ApiProviderConfig, CodexAccount, CodexApiProviderMode, CodexAuthMode,
};
use crate::opencode::{push_unique, push_unique_path};
use crate::strings::{opt_str, strs};
use crate::text::trim;

verus! {

broadcast use vstd::string::group_string_axioms;

/// The quick settings of `config.toml`.
#[derive(Debug)]
pub struct CodexQuickConfig {
    pub context_window_1m: bool,
    pub auto_compact_token_limit: i64,
    pub detected_model_context_window: Option<i64>,
    pub detected_auto_compact_token_limit: Option<i64>,
}

/// The message of a document that does not parse.
pub open spec fn toml_error(e: Seq<char>) -> Seq<char> {
    "解析 config.toml 失败: "@ + e
}

/// The text a document to edit is read from: none when blank.
pub open spec fn edit_source(text: Seq<char>) -> Seq<char> {
    if trim(text).len() == 0 {
        Seq::empty()
    } else {
        text
    }
}

/// A document that holds no key and no table entry.
pub open spec fn toml_holds_nothing(d: Seq<char>) -> bool {
    &&& forall|k: Seq<char>| #[trigger] toml_int(d, k) is None
    &&& forall|k: Seq<char>| #[trigger] toml_str(d, k) is None
    &&& forall|k: Seq<char>| !#[trigger] toml_table(d, k)
    &&& forall|t: Seq<char>, e: Seq<char>| !#[trigger] toml_table_has(d, t, e)
}

/// The integers, strings and tables at the top-level keys other than
/// `keys` are those of `before`.
pub open spec fn keeps_top_level(before: Seq<char>, after: Seq<char>, keys: Seq<Seq<char>>) -> bool {
    &&& forall|k: Seq<char>| !keys.contains(k) ==> #[trigger] toml_int(after, k) == toml_int(before, k)
    &&& forall|k: Seq<char>| !keys.contains(k) ==> #[trigger] toml_str(after, k) == toml_str(before, k)
    &&& forall|k: Seq<char>| !keys.contains(k) ==> #[trigger] toml_table(after, k) == toml_table(before, k)
}

proof fn lemma_two_keys(a: Seq<char>, b: Seq<char>, k: Seq<char>)
    ensures
        seq![a, b].contains(k) <==> (k == a || k == b),
{
    if k == a {
        assert(seq![a, b][0] == k);
    }
    if k == b {
        assert(seq![a, b][1] == k);
    }
}

proof fn lemma_three_keys(a: Seq<char>, b: Seq<char>, c: Seq<char>, k: Seq<char>)
    ensures
        seq![a, b, c].contains(k) <==> (k == a || k == b || k == c),
{
    if k == a {
        assert(seq![a, b, c][0] == k);
    }
    if k == b {
        assert(seq![a, b, c][1] == k);
    }
    if k == c {
        assert(seq![a, b, c][2] == k);
    }
}

/// `read_quick_config_from_config_toml`, on the file's text (empty when it
/// cannot be read): the context window and compaction limit it sets (a
/// limit only when positive), whether the window is the 1M one, and the
/// limit in force (900000 unless set).
pub open spec fn quick_config_of(content: Seq<char>) -> Result<(bool, i64, Option<i64>, Option<i64>), Seq<char>> {
    if trim(content).len() == 0 {
        Ok((false, 900_000, None, None))
    } else {
        match toml_doc(content) {
            Err(e) => Err(toml_error(e)),
            Ok(d) => {
                let window = toml_int(d, "model_context_window"@);
                let limit = match toml_int(d, "model_auto_compact_token_limit"@) {
                    Some(v) => if v > 0 {
                        Some(v)
                    } else {
                        None
                    },
                    None => None,
                };
                Ok(
                    (
                        window == Some(1_000_000i64),
                        match limit {
                            Some(v) => v,
                            None => 900_000,
                        },
                        window,
                        limit,
                    ),
                )
            },
        }
    }
}

/// `read_quick_config_from_config_toml`.
pub fn read_quick_config_from_config_toml(content: &str) -> (r: Result<CodexQuickConfig, String>)
    ensures
        match quick_config_of(content@) {
            Ok(q) => r matches Ok(c) && (
                c.context_window_1m,
                c.auto_compact_token_limit,
                c.detected_model_context_window,
                c.detected_auto_compact_token_limit,
            ) == q,
            Err(e) => r matches Err(m) && m@ == e,
        },
{
    if crate::text::trimmed(content).len() == 0 {
        return Ok(
            CodexQuickConfig {
                context_window_1m: false,
                auto_compact_token_limit: 900_000,
                detected_model_context_window: None,
                detected_auto_compact_token_limit: None,
            },
        );
    }
    let doc = match parse_toml(content) {
        Ok(d) => d,
        Err(e) => {
            return Err(crate::text::concat("解析 config.toml 失败: ", e.as_str()));
        },
    };
    let window = toml_get_int(doc.as_str(), "model_context_window");
    let limit = match toml_get_int(doc.as_str(), "model_auto_compact_token_limit") {
        Some(v) => if v > 0 {
            Some(v)
        } else {
            None
        },
        None => None,
    };
    Ok(
        CodexQuickConfig {
            context_window_1m: window == Some(1_000_000i64),
            auto_compact_token_limit: match limit {
                Some(v) => v,
                None => 900_000,
            },
            detected_model_context_window: window,
            detected_auto_compact_token_limit: limit,
        },
    )
}

/// The document to edit, from a file's text.
fn edit_base(existing: &str) -> (r: Result<String, String>)
    ensures
        r matches Ok(d) ==> toml_doc(d@) is Ok,
        r matches Ok(d) ==> toml_reads_alike(d@, edit_source(existing@)),
        trim(existing@).len() == 0 ==> (r matches Ok(d) && d@ == Seq::<char>::empty() && toml_holds_nothing(d@)),
        trim(existing@).len() != 0 ==> match toml_doc(existing@) {
            Ok(d) => r matches Ok(x) && x@ == d,
            Err(e) => r matches Err(m) && m@ == toml_error(e),
        },
{
    if crate::text::trimmed(existing).len() == 0 {
        return Ok(new_toml());
    }
    match parse_toml(existing) {
        Ok(d) => Ok(d),
        Err(e) => Err(crate::text::concat("解析 config.toml 失败: ", e.as_str())),
    }
}

/// The quick settings written into a document: the window and the limit
/// set when given (and positive), removed when not.
pub open spec fn quick_config_written(doc: Seq<char>, window: Option<i64>, limit: Option<i64>) -> Result<Seq<char>, Seq<char>> {
    let d1 = match window {
        Some(w) => if w <= 0 {
            Err("上下文窗口必须大于 0"@)
        } else {
            Ok(toml_with_int(doc, "model_context_window"@, w))
        },
        None => Ok(toml_without(doc, "model_context_window"@)),
    };
    match d1 {
        Err(e) => Err(e),
        Ok(d) => match limit {
            Some(l) => if l <= 0 {
                Err("自动压缩阈值必须大于 0"@)
            } else {
                Ok(toml_with_int(d, "model_auto_compact_token_limit"@, l))
            },
            None => Ok(toml_without(d, "model_auto_compact_token_limit"@)),
        },
    }
}

/// `write_quick_config_to_config_toml`, on the file's text (empty when it
/// cannot be read): nothing to write for a blank file and no settings;
/// else the document to write, or why not.
pub fn write_quick_config_to_config_toml(
    existing: &str,
    model_context_window: Option<i64>,
    auto_compact_token_limit: Option<i64>,
) -> (r: Result<Option<String>, String>)
    ensures
        trim(existing@).len() == 0 && model_context_window is None && auto_compact_token_limit is None ==> r matches Ok(
            None,
        ),
        r matches Ok(Some(t)) ==> quick_config_of(t@) == Ok::<(bool, i64, Option<i64>, Option<i64>), Seq<char>>(
            (
                model_context_window == Some(1_000_000i64),
                match auto_compact_token_limit {
                    Some(l) => l,
                    None => 900_000,
                },
                model_context_window,
                auto_compact_token_limit,
            ),
        ),
        !(trim(existing@).len() == 0 && model_context_window is None && auto_compact_token_limit is None) ==> {
            &&& trim(existing@).len() != 0 ==> match toml_doc(existing@) {
                Err(e) => r matches Err(m) && m@ == toml_error(e),
                Ok(d) => match quick_config_written(d, model_context_window, auto_compact_token_limit) {
                    Ok(t) => r matches Ok(Some(x)) && x@ == t,
                    Err(e) => r matches Err(m) && m@ == e,
                },
            }
            &&& trim(existing@).len() == 0 ==> match quick_config_written(
                Seq::empty(),
                model_context_window,
                auto_compact_token_limit,
            ) {
                Ok(t) => r matches Ok(Some(x)) && x@ == t,
                Err(e) => r matches Err(m) && m@ == e,
            }
        },
        r matches Ok(Some(t)) ==> keeps_top_level(
            edit_source(existing@),
            t@,
            seq!["model_context_window"@, "model_auto_compact_token_limit"@],
        ),
        r matches Ok(Some(t)) && trim(existing@).len() == 0 ==> toml_holds_nothing(edit_source(existing@)),
{
    if crate::text::trimmed(existing).len() == 0 && model_context_window.is_none() && auto_compact_token_limit.is_none() {
        return Ok(None);
    }
    let doc = match edit_base(existing) {
        Ok(d) => d,
        Err(e) => {
            return Err(e);
        },
    };
    let ghost base = doc@;
    let doc = match model_context_window {
        Some(w) => {
            if w <= 0 {
                assert(quick_config_written(base, model_context_window, auto_compact_token_limit) is Err);
                return Err("上下文窗口必须大于 0".to_string());
            }
            toml_set_int(doc.as_str(), "model_context_window", w)
        },
        None => toml_remove(doc.as_str(), "model_context_window"),
    };
    let doc = match auto_compact_token_limit {
        Some(l) => {
            if l <= 0 {
                assert(quick_config_written(base, model_context_window, auto_compact_token_limit) is Err);
                return Err("自动压缩阈值必须大于 0".to_string());
            }
            toml_set_int(doc.as_str(), "model_auto_compact_token_limit", l)
        },
        None => toml_remove(doc.as_str(), "model_auto_compact_token_limit"),
    };
    assert(quick_config_written(base, model_context_window, auto_compact_token_limit) == Ok::<Seq<char>, Seq<char>>(doc@));
    proof {
        assert forall|k: Seq<char>| !seq!["model_context_window"@, "model_auto_compact_token_limit"@].contains(k) implies k
            != "model_context_window"@ && k != "model_auto_compact_token_limit"@ by {
            lemma_two_keys("model_context_window"@, "model_auto_compact_token_limit"@, k);
        }
    }
    assert(toml_int(doc@, "model_context_window"@) == model_context_window) by {
        reveal_strlit("model_context_window");
        reveal_strlit("model_auto_compact_token_limit");
        assert("model_context_window"@ != "model_auto_compact_token_limit"@) by {
            assert("model_context_window"@[6] != "model_auto_compact_token_limit"@[6]);
        }
    }
    Ok(Some(doc))
}

/// `save_quick_config_for_base_dir`, on the file's text (empty when it
/// cannot be read): the document to write (none when there is nothing to
/// write) and the settings then read back. It succeeds whenever the file is
/// blank or parses and each given setting is positive; the settings read
/// back are the ones given (the limit in force 900000 when none is given),
/// and every other top-level key of the file keeps its value.
pub fn save_quick_config(
    existing: &str,
    model_context_window: Option<i64>,
    auto_compact_token_limit: Option<i64>,
) -> (r: Result<(Option<String>, CodexQuickConfig), String>)
    ensures
        trim(existing@).len() != 0 && toml_doc(existing@) is Err ==> (r matches Err(m) && m@ == toml_error(
            toml_doc(existing@)->Err_0,
        )),
        trim(existing@).len() == 0 || toml_doc(existing@) is Ok ==> if model_context_window is Some
            && model_context_window->0 <= 0 {
            r matches Err(m) && m@ == "上下文窗口必须大于 0"@
        } else if auto_compact_token_limit is Some && auto_compact_token_limit->0 <= 0 {
            r matches Err(m) && m@ == "自动压缩阈值必须大于 0"@
        } else {
            r matches Ok((_, q)) && (
                q.context_window_1m,
                q.auto_compact_token_limit,
                q.detected_model_context_window,
                q.detected_auto_compact_token_limit,
            ) == (
                model_context_window == Some(1_000_000i64),
                match auto_compact_token_limit {
                    Some(l) => l,
                    None => 900_000,
                },
                model_context_window,
                auto_compact_token_limit,
            )
        },
        r matches Ok((Some(t), q)) ==> read_back(t@, q),
        r matches Ok((Some(t), _)) ==> keeps_top_level(
            edit_source(existing@),
            t@,
            seq!["model_context_window"@, "model_auto_compact_token_limit"@],
        ),
        r matches Ok((None, _)) ==> trim(existing@).len() == 0 && model_context_window is None
            && auto_compact_token_limit is None,
{
    let written = match write_quick_config_to_config_toml(existing, model_context_window, auto_compact_token_limit) {
        Ok(w) => w,
        Err(e) => {
            return Err(e);
        },
    };
    let q = match &written {
        Some(t) => read_quick_config_from_config_toml(t.as_str()),
        None => read_quick_config_from_config_toml(existing),
    };
    match q {
        Ok(q) => Ok((written, q)),
        Err(e) => Err(e),
    }
}

/// The settings `q` are what `read_quick_config_from_config_toml` reads
/// from the text.
pub open spec fn read_back(text: Seq<char>, q: CodexQuickConfig) -> bool {
    quick_config_of(text) == Ok::<(bool, i64, Option<i64>, Option<i64>), Seq<char>>(
        (q.context_window_1m, q.auto_compact_token_limit, q.detected_model_context_window, q.detected_auto_compact_token_limit),
    )
}

/// The provider that a `config.toml` names, from its text (none when the
/// file cannot be read): the custom provider under `model_provider` with
/// its base URL and name, else the built-in one with `openai_base_url`; the
/// built-in one without a base URL when the file is blank or broken.
pub open spec fn config_provider(content: Option<Seq<char>>) -> (
    CodexApiProviderMode,
    Option<Seq<char>>,
    Option<Seq<char>>,
    Option<Seq<char>>,
) {
    let default = (CodexApiProviderMode::OpenaiBuiltin, None, None, None);
    match content {
        None => default,
        Some(c) => if trim(c).len() == 0 {
            default
        } else {
            match toml_doc(c) {
                Err(_) => default,
                Ok(d) => {
                    let inferred = match normalized_opt(toml_str(d, "model_provider"@)) {
                        Some(pid) => resolved_provider(
                            normalized_base_url(toml_entry_str(d, "model_providers"@, pid, "base_url"@)),
                            Some(CodexApiProviderMode::Custom),
                            Some(pid),
                            normalized_opt(toml_entry_str(d, "model_providers"@, pid, "name"@)),
                        ),
                        None => resolved_provider(
                            normalized_base_url(toml_str(d, "openai_base_url"@)),
                            Some(CodexApiProviderMode::OpenaiBuiltin),
                            None,
                            None,
                        ),
                    };
                    match inferred {
                        Ok(v) => v,
                        Err(_) => default,
                    }
                },
            }
        },
    }
}

/// `read_api_provider_from_config_toml`.
pub fn read_api_provider_from_config_toml(content: Option<&str>) -> (r: ApiProviderConfig)
    ensures
        provider_view(r) == config_provider(
            match content {
                Some(c) => Some(c@),
                None => None,
            },
        ),
{
    let default = ApiProviderConfig {
        mode: CodexApiProviderMode::OpenaiBuiltin,
        base_url: None,
        provider_id: None,
        provider_name: None,
    };
    let c = match content {
        Some(c) => c,
        None => {
            return default;
        },
    };
    if crate::text::trimmed(c).len() == 0 {
        return default;
    }
    let doc = match parse_toml(c) {
        Ok(d) => d,
        Err(_) => {
            return default;
        },
    };
    let model_provider = match toml_get_str(doc.as_str(), "model_provider") {
        Some(p) => normalize_optional_ref(Some(p.as_str())),
        None => None,
    };
    match model_provider {
        Some(pid) => {
            let base = match toml_get_entry_str(doc.as_str(), "model_providers", pid.as_str(), "base_url") {
                Some(b) => normalize_api_base_url(Some(b.as_str())),
                None => normalize_api_base_url(None),
            };
            let name = match toml_get_entry_str(doc.as_str(), "model_providers", pid.as_str(), "name") {
                Some(n) => normalize_api_provider_name(Some(n.as_str())),
                None => normalize_api_provider_name(None),
            };
            infer_api_provider_config(
                match &base {
                    Some(b) => Some(b.as_str()),
                    None => None,
                },
                Some(CodexApiProviderMode::Custom),
                Some(pid.as_str()),
                match &name {
                    Some(n) => Some(n.as_str()),
                    None => None,
                },
            )
        },
        None => {
            let base = match toml_get_str(doc.as_str(), "openai_base_url") {
                Some(b) => normalize_api_base_url(Some(b.as_str())),
                None => normalize_api_base_url(None),
            };
            infer_api_provider_config(
                match &base {
                    Some(b) => Some(b.as_str()),
                    None => None,
                },
                Some(CodexApiProviderMode::OpenaiBuiltin),
                None,
                None,
            )
        },
    }
}

/// The provider ids the application manages, from the first `n` accounts:
/// its three own ones, then the providers of the API key accounts, each
/// once.
pub open spec fn managed_provider_ids(accounts: Seq<CodexAccount>, n: int) -> Seq<Seq<char>>
    decreases n,
{
    if n <= 0 || n > accounts.len() {
        seq!["codex_local_access"@, "cockpit_api"@, "openai_api_key"@]
    } else {
        let prev = managed_provider_ids(accounts, n - 1);
        let a = accounts[n - 1];
        if a.auth_mode == CodexAuthMode::Apikey {
            match normalized_opt(opt_str(a.api_provider_id)) {
                Some(p) => push_unique(prev, p),
                None => prev,
            }
        } else {
            prev
        }
    }
}

/// `collect_managed_api_key_provider_ids`, over the stored accounts.
pub fn collect_managed_api_key_provider_ids(accounts: &Vec<CodexAccount>) -> (r: Vec<String>)
    ensures
        strs(r@) == managed_provider_ids(accounts@, accounts@.len() as int),
{
    let mut ids: Vec<String> = vec!["codex_local_access".to_string(), "cockpit_api".to_string(), "openai_api_key".to_string()];
    assert(strs(ids@) =~= seq!["codex_local_access"@, "cockpit_api"@, "openai_api_key"@]);
    let mut i: usize = 0;
    while i < accounts.len()
        invariant
            i <= accounts@.len(),
            strs(ids@) == managed_provider_ids(accounts@, i as int),
        decreases accounts.len() - i,
    {
        let a = &accounts[i];
        if a.is_api_key_auth() {
            match &a.api_provider_id {
                Some(p) => match normalize_optional_ref(Some(p.as_str())) {
                    Some(id) => {
                        push_unique_path(&mut ids, id);
                    },
                    None => {},
                },
                None => {},
            }
        }
        i += 1;
    }
    ids
}

/// A document without the first `k` entries `ids` of its `model_providers`
/// table, removed one by one while the table is there (a table implied only
/// by its entries' headers is no longer written once its last entry goes).
pub open spec fn without_entries(doc: Seq<char>, ids: Seq<Seq<char>>, k: int) -> Seq<char>
    decreases k,
{
    if k <= 0 || k > ids.len() {
        doc
    } else {
        let d = without_entries(doc, ids, k - 1);
        if toml_table(d, "model_providers"@) {
            toml_without_entry(d, "model_providers"@, ids[k - 1])
        } else {
            d
        }
    }
}

/// `remove_managed_api_key_model_providers_from_doc`: the managed entries
/// leave `model_providers`, which goes when left empty.
pub open spec fn managed_providers_removed(doc: Seq<char>, ids: Seq<Seq<char>>) -> Seq<char> {
    if toml_table(doc, "model_providers"@) {
        let d = without_entries(doc, ids, ids.len() as int);
        if toml_table_empty(d, "model_providers"@) {
            toml_without(d, "model_providers"@)
        } else {
            d
        }
    } else {
        doc
    }
}

/// `remove_managed_api_key_model_providers_from_doc`.
pub fn remove_managed_api_key_model_providers_from_doc(doc: &str, managed_ids: &Vec<String>) -> (r: String)
    requires
        toml_doc(doc@) is Ok,
    ensures
        r@ == managed_providers_removed(doc@, strs(managed_ids@)),
        toml_doc(r@) is Ok,
        keeps_top_level(doc@, r@, seq!["model_providers"@]),
        forall|e: Seq<char>|
            #[trigger] toml_table_has(r@, "model_providers"@, e) == (toml_table_has(doc@, "model_providers"@, e)
                && !strs(managed_ids@).contains(e)),
        forall|e: Seq<char>, k: Seq<char>|
            toml_table_has(r@, "model_providers"@, e) ==> #[trigger] toml_entry_str(r@, "model_providers"@, e, k)
                == toml_entry_str(doc@, "model_providers"@, e, k),
{
    let ghost mp = "model_providers"@;
    proof {
        assert forall|k: Seq<char>| !seq![mp].contains(k) implies k != mp by {
            if k == mp {
                assert(seq![mp][0] == k);
            }
        }
    }
    if !toml_key_is_table(doc, "model_providers") {
        return doc.to_string();
    }
    let ghost ids = strs(managed_ids@);
    let mut d = doc.to_string();
    let mut k: usize = 0;
    while k < managed_ids.len()
        invariant
            k <= managed_ids@.len(),
            ids == strs(managed_ids@),
            d@ == without_entries(doc@, ids, k as int),
            toml_doc(d@) is Ok,
            mp == "model_providers"@,
            forall|key: Seq<char>| key != mp ==> #[trigger] toml_int(d@, key) == toml_int(doc@, key),
            forall|key: Seq<char>| key != mp ==> #[trigger] toml_str(d@, key) == toml_str(doc@, key),
            forall|key: Seq<char>| key != mp ==> #[trigger] toml_table(d@, key) == toml_table(doc@, key),
            forall|e: Seq<char>|
                #[trigger] toml_table_has(d@, mp, e) == (toml_table_has(doc@, mp, e) && !ids.subrange(
                    0,
                    k as int,
                ).contains(e)),
            forall|e: Seq<char>, key: Seq<char>|
                !ids.subrange(0, k as int).contains(e) ==> #[trigger] toml_entry_str(d@, mp, e, key) == toml_entry_str(
                    doc@,
                    mp,
                    e,
                    key,
                ),
        decreases managed_ids.len() - k,
    {
        assert(ids[k as int] == managed_ids@[k as int]@);
        let ghost before = d@;
        if toml_key_is_table(d.as_str(), "model_providers") {
            d = toml_remove_entry(d.as_str(), "model_providers", managed_ids[k].as_str());
        }
        proof {
            let next = ids.subrange(0, k + 1);
            assert(next =~= ids.subrange(0, k as int).push(ids[k as int]));
            assert forall|e: Seq<char>| #[trigger] next.contains(e) == (ids.subrange(0, k as int).contains(e) || e == ids[k as int]) by {
                if e == ids[k as int] {
                    assert(next[k as int] == e);
                }
                if ids.subrange(0, k as int).contains(e) {
                    let j = choose|j: int| 0 <= j < k && ids.subrange(0, k as int)[j] == e;
                    assert(next[j] == e);
                }
                if next.contains(e) {
                    let j = choose|j: int| 0 <= j < k + 1 && next[j] == e;
                    if j < k {
                        assert(ids.subrange(0, k as int)[j] == e);
                    }
                }
            }
        }
        k += 1;
    }
    assert(ids.subrange(0, k as int) =~= ids);
    if toml_table_is_empty(d.as_str(), "model_providers") {
        let r = toml_remove(d.as_str(), "model_providers");
        assert forall|e: Seq<char>| #[trigger] toml_table_has(r@, mp, e) == (toml_table_has(doc@, mp, e) && !ids.contains(e)) by {
            assert(!toml_table_has(d@, mp, e));
        }
        r
    } else {
        d
    }
}

/// The fields of a provider entry, written in order into a document whose
/// `model_providers` entry `pid` is a table.
pub open spec fn provider_entry_written(
    doc: Seq<char>,
    pid: Seq<char>,
    name: Seq<char>,
    base_url: Seq<char>,
    requires_openai_auth: bool,
    bearer_token: Option<Seq<char>>,
) -> Seq<char> {
    let mp = "model_providers"@;
    let d1 = toml_with_entry_str(doc, mp, pid, "name"@, name);
    let d2 = toml_with_entry_str(d1, mp, pid, "base_url"@, base_url);
    let d3 = toml_with_entry_str(d2, mp, pid, "wire_api"@, "responses"@);
    let d4 = toml_with_entry_bool(d3, mp, pid, "requires_openai_auth"@, requires_openai_auth);
    let d5 = match bearer_token {
        Some(t) => toml_with_entry_str(d4, mp, pid, "experimental_bearer_token"@, t),
        None => d4,
    };
    toml_with_entry_bool(d5, mp, pid, "supports_websockets"@, false)
}

/// Writes the fields of a provider entry.
fn write_provider_entry(
    doc: String,
    pid: &str,
    name: &str,
    base_url: &str,
    requires_openai_auth: bool,
    bearer_token: Option<&str>,
) -> (r: String)
    requires
        toml_doc(doc@) is Ok,
        toml_table(doc@, "model_providers"@),
        toml_entry_table(doc@, "model_providers"@, pid@),
    ensures
        r@ == provider_entry_written(
            doc@,
            pid@,
            name@,
            base_url@,
            requires_openai_auth,
            match bearer_token {
                Some(t) => Some(t@),
                None => None,
            },
        ),
        toml_doc(r@) is Ok,
        toml_doc(r@) matches Ok(x) && toml_reads_alike(x, r@),
        trim(r@).len() != 0,
        toml_entry_str(r@, "model_providers"@, pid@, "name"@) == Some(name@),
        toml_entry_str(r@, "model_providers"@, pid@, "base_url"@) == Some(base_url@),
        toml_table_has(r@, "model_providers"@, pid@),
        toml_entry_str(r@, "model_providers"@, pid@, "wire_api"@) == Some("responses"@),
        bearer_token matches Some(t) ==> toml_entry_str(r@, "model_providers"@, pid@, "experimental_bearer_token"@)
            == Some(t@),
        keeps_top_level(doc@, r@, seq!["model_providers"@]),
        forall|e: Seq<char>|
            e != pid@ ==> #[trigger] toml_table_has(r@, "model_providers"@, e) == toml_table_has(
                doc@,
                "model_providers"@,
                e,
            ),
        forall|e: Seq<char>, k: Seq<char>|
            e != pid@ ==> #[trigger] toml_entry_str(r@, "model_providers"@, e, k) == toml_entry_str(
                doc@,
                "model_providers"@,
                e,
                k,
            ),
{
    proof {
        reveal_strlit("name");
        reveal_strlit("base_url");
        reveal_strlit("wire_api");
        reveal_strlit("requires_openai_auth");
        reveal_strlit("experimental_bearer_token");
        reveal_strlit("supports_websockets");
        assert("base_url"@[0] != "wire_api"@[0]);
        assert("name"@ != "base_url"@);
        assert("name"@ != "wire_api"@);
        assert("base_url"@ != "wire_api"@);
        assert("name"@.len() == 4 && "base_url"@.len() == 8);
        assert("requires_openai_auth"@.len() == 20 && "experimental_bearer_token"@.len() == 25);
        assert("supports_websockets"@.len() == 19);
        assert("name"@ != "requires_openai_auth"@ && "base_url"@ != "requires_openai_auth"@);
        assert("name"@ != "experimental_bearer_token"@ && "base_url"@ != "experimental_bearer_token"@);
        assert("name"@ != "supports_websockets"@ && "base_url"@ != "supports_websockets"@);
        assert("wire_api"@.len() == 8);
        assert("wire_api"@ != "requires_openai_auth"@ && "wire_api"@ != "experimental_bearer_token"@);
        assert("wire_api"@ != "supports_websockets"@);
        assert("requires_openai_auth"@ != "experimental_bearer_token"@);
        assert("requires_openai_auth"@ != "supports_websockets"@);
        assert("experimental_bearer_token"@ != "supports_websockets"@);
        reveal_strlit("model_providers");
        assert forall|k: Seq<char>| !seq!["model_providers"@].contains(k) implies k != "model_providers"@ by {
            if k == "model_providers"@ {
                assert(seq!["model_providers"@][0] == k);
            }
        }
    }
    let d1 = toml_set_entry_str(doc.as_str(), "model_providers", pid, "name", name);
    let d2 = toml_set_entry_str(d1.as_str(), "model_providers", pid, "base_url", base_url);
    let d3 = toml_set_entry_str(d2.as_str(), "model_providers", pid, "wire_api", "responses");
    let d4 = toml_set_entry_bool(d3.as_str(), "model_providers", pid, "requires_openai_auth", requires_openai_auth);
    let d5 = match bearer_token {
        Some(t) => toml_set_entry_str(d4.as_str(), "model_providers", pid, "experimental_bearer_token", t),
        None => d4,
    };
    toml_set_entry_bool(d5.as_str(), "model_providers", pid, "supports_websockets", false)
}

/// The document with a `model_providers` table, when it has none yet.
pub open spec fn with_providers_table(doc: Seq<char>) -> Seq<char> {
    if toml_has(doc, "model_providers"@) {
        doc
    } else {
        toml_with_table(doc, "model_providers"@)
    }
}

/// `write_api_provider_to_config_toml`'s edit of a document.
pub open spec fn provider_written(doc: Seq<char>, c: ApiProviderConfig, managed_ids: Seq<Seq<char>>) -> Result<
    Seq<char>,
    Seq<char>,
> {
    match c.mode {
        CodexApiProviderMode::OpenaiBuiltin => {
            let d1 = managed_providers_removed(toml_without(doc, "model_provider"@), managed_ids);
            Ok(
                match c.base_url {
                    Some(b) => toml_with_str(d1, "openai_base_url"@, b@),
                    None => toml_without(d1, "openai_base_url"@),
                },
            )
        },
        CodexApiProviderMode::Custom => {
            let d1 = toml_without(doc, "openai_base_url"@);
            match c.provider_id {
                None => Err("自定义供应商缺少 provider_id"@),
                Some(pid) => {
                    let name = match c.provider_name {
                        Some(n) => if trim(n@).len() > 0 {
                            n@
                        } else {
                            pid@
                        },
                        None => pid@,
                    };
                    match c.base_url {
                        None => Err("自定义供应商缺少 Base URL"@),
                        Some(b) => {
                            let d2 = with_providers_table(toml_with_str(d1, "model_provider"@, pid@));
                            if !toml_table(d2, "model_providers"@) {
                                Err("config.toml 中 model_providers 不是合法表结构"@)
                            } else {
                                let d3 = if toml_table_has(d2, "model_providers"@, pid@) {
                                    d2
                                } else {
                                    toml_with_entry_table(d2, "model_providers"@, pid@)
                                };
                                if !toml_entry_table(d3, "model_providers"@, pid@) {
                                    Err("config.toml 中目标 provider 不是合法表结构"@)
                                } else {
                                    Ok(provider_entry_written(d3, pid@, name, b@, false, None))
                                }
                            }
                        },
                    }
                },
            }
        },
    }
}

/// The text of a file that may be missing.
pub open spec fn text_of(existing: Option<&str>) -> Seq<char> {
    match existing {
        Some(e) => e@,
        None => Seq::empty(),
    }
}

/// The provider `read_api_provider_from_config_toml` finds in a document
/// naming (when `provider_id` is some) that provider with that base URL
/// and name, else the built-in one with that base URL.
pub open spec fn provider_read_back(
    base_url: Option<Seq<char>>,
    provider_id: Option<Seq<char>>,
    name: Option<Seq<char>>,
) -> (CodexApiProviderMode, Option<Seq<char>>, Option<Seq<char>>, Option<Seq<char>>) {
    let mode = if provider_id is Some {
        CodexApiProviderMode::Custom
    } else {
        CodexApiProviderMode::OpenaiBuiltin
    };
    match resolved_provider(normalized_base_url(base_url), Some(mode), provider_id, normalized_opt(name)) {
        Ok(v) => v,
        Err(_) => (CodexApiProviderMode::OpenaiBuiltin, None, None, None),
    }
}

/// The name `write_api_provider_to_config_toml` writes for a custom
/// provider: its own when not blank, else its id.
pub open spec fn written_provider_name(c: ApiProviderConfig, pid: Seq<char>) -> Seq<char> {
    match c.provider_name {
        Some(n) => if trim(n@).len() > 0 {
            n@
        } else {
            pid
        },
        None => pid,
    }
}

/// `write_api_provider_to_config_toml`, on the file's text (`None` when
/// there is no file, empty when it cannot be read) and the managed
/// provider ids: nothing to write when there is no file and no base URL;
/// else the document to write, or why not.
pub fn write_api_provider_to_config_toml(
    existing: Option<&str>,
    provider_config: &ApiProviderConfig,
    managed_ids: &Vec<String>,
) -> (r: Result<Option<String>, String>)
    ensures
        existing is None && provider_config.base_url is None ==> r matches Ok(None),
        provider_config.mode == CodexApiProviderMode::OpenaiBuiltin ==> (r matches Ok(Some(t)) ==> config_provider(
            Some(t@),
        ) == provider_read_back(opt_str(provider_config.base_url), None, None)),
        provider_config.mode == CodexApiProviderMode::Custom && provider_config.provider_id is Some && non_blank(
            (provider_config.provider_id->0)@,
        ) == Some((provider_config.provider_id->0)@) ==> (r matches Ok(Some(t)) ==> config_provider(Some(t@))
            == provider_read_back(
            opt_str(provider_config.base_url),
            Some((provider_config.provider_id->0)@),
            Some(written_provider_name(*provider_config, (provider_config.provider_id->0)@)),
        )),
        existing is Some && trim(text_of(existing)).len() != 0 ==> match toml_doc(text_of(existing)) {
            Err(err) => r matches Err(m) && m@ == toml_error(err),
            Ok(d) => match provider_written(d, *provider_config, strs(managed_ids@)) {
                Ok(t) => r matches Ok(Some(x)) && x@ == t,
                Err(err) => r matches Err(m) && m@ == err,
            },
        },
        !(existing is None && provider_config.base_url is None) && !(existing is Some && trim(text_of(existing)).len()
            != 0) ==> match provider_written(Seq::empty(), *provider_config, strs(managed_ids@)) {
            Ok(t) => r matches Ok(Some(x)) && x@ == t,
            Err(err) => r matches Err(m) && m@ == err,
        },
        r matches Ok(Some(t)) ==> keeps_top_level(
            edit_source(text_of(existing)),
            t@,
            seq!["model_provider"@, "openai_base_url"@, "model_providers"@],
        ),
        r matches Ok(Some(t)) && trim(text_of(existing)).len() == 0 ==> toml_holds_nothing(
            edit_source(text_of(existing)),
        ),
        provider_config.mode == CodexApiProviderMode::OpenaiBuiltin ==> (r matches Ok(Some(t)) ==> {
            &&& forall|e: Seq<char>|
                #[trigger] toml_table_has(t@, "model_providers"@, e) == (toml_table_has(
                    edit_source(text_of(existing)),
                    "model_providers"@,
                    e,
                ) && !strs(managed_ids@).contains(e))
            &&& forall|e: Seq<char>, k: Seq<char>|
                toml_table_has(t@, "model_providers"@, e) ==> #[trigger] toml_entry_str(t@, "model_providers"@, e, k)
                    == toml_entry_str(edit_source(text_of(existing)), "model_providers"@, e, k)
        }),
        provider_config.mode == CodexApiProviderMode::Custom ==> (r matches Ok(Some(t)) ==> {
            let pid = (provider_config.provider_id->0)@;
            &&& toml_entry_str(t@, "model_providers"@, pid, "wire_api"@) == Some("responses"@)
            &&& forall|e: Seq<char>|
                e != pid ==> #[trigger] toml_table_has(t@, "model_providers"@, e) == toml_table_has(
                    edit_source(text_of(existing)),
                    "model_providers"@,
                    e,
                )
            &&& forall|e: Seq<char>, k: Seq<char>|
                e != pid && toml_table_has(t@, "model_providers"@, e) ==> #[trigger] toml_entry_str(
                    t@,
                    "model_providers"@,
                    e,
                    k,
                ) == toml_entry_str(
                    edit_source(text_of(existing)),
                    "model_providers"@,
                    e,
                    k,
                )
        }),
{
    if existing.is_none() && provider_config.base_url.is_none() {
        return Ok(None);
    }
    let doc = match existing {
        Some(text) => match edit_base(text) {
            Ok(d) => d,
            Err(e) => {
                return Err(e);
            },
        },
        None => new_toml(),
    };
    let ghost base = doc@;
    let ghost src = edit_source(text_of(existing));
    let ghost mp = "model_providers"@;
    proof {
        if existing is None {
            assert(trim(Seq::<char>::empty()).len() == 0) by {
                assert(crate::text::trim_start(Seq::<char>::empty()) =~= Seq::<char>::empty());
            }
        }
        assert(toml_reads_alike(doc@, src));
        reveal_strlit("model_provider");
        reveal_strlit("model_providers");
        reveal_strlit("openai_base_url");
        assert("model_provider"@.len() == 14 && "model_providers"@.len() == 15);
        assert("openai_base_url"@.len() == 15);
        assert("model_provider"@ != "model_providers"@);
        assert("model_provider"@ != "openai_base_url"@);
        assert("openai_base_url"@[0] != "model_providers"@[0]);
        assert("openai_base_url"@ != "model_providers"@);
        assert forall|k: Seq<char>| !seq!["model_provider"@, "openai_base_url"@, "model_providers"@].contains(k) implies k
            != "model_provider"@ && k != "openai_base_url"@ && k != mp by {
            lemma_three_keys("model_provider"@, "openai_base_url"@, "model_providers"@, k);
        }
    }
    match provider_config.mode {
        CodexApiProviderMode::OpenaiBuiltin => {
            let d1 = toml_remove(doc.as_str(), "model_provider");
            let d2 = remove_managed_api_key_model_providers_from_doc(d1.as_str(), managed_ids);
            let d3 = match &provider_config.base_url {
                Some(b) => toml_set_str(d2.as_str(), "openai_base_url", b.as_str()),
                None => toml_remove(d2.as_str(), "openai_base_url"),
            };
            assert(provider_written(base, *provider_config, strs(managed_ids@)) == Ok::<Seq<char>, Seq<char>>(d3@));
            proof {
                reveal_strlit("model_provider");
                reveal_strlit("model_providers");
                reveal_strlit("openai_base_url");
                assert("model_provider"@.len() == 14 && "model_providers"@.len() == 15);
                assert("openai_base_url"@.len() == 15);
                assert("model_provider"@ != "model_providers"@);
                assert("model_provider"@ != "openai_base_url"@);
                assert("openai_base_url"@[0] != "model_providers"@[0]);
                assert("openai_base_url"@ != "model_providers"@);
                assert(toml_str(d3@, "model_provider"@) is None);
                assert(toml_str(d3@, "openai_base_url"@) == opt_str(provider_config.base_url));
            }
            Ok(Some(d3))
        },
        CodexApiProviderMode::Custom => {
            let d1 = toml_remove(doc.as_str(), "openai_base_url");
            let pid = match &provider_config.provider_id {
                Some(p) => p,
                None => {
                    return Err("自定义供应商缺少 provider_id".to_string());
                },
            };
            let name: &str = match &provider_config.provider_name {
                Some(n) => if crate::text::trimmed(n.as_str()).len() > 0 {
                    n.as_str()
                } else {
                    pid.as_str()
                },
                None => pid.as_str(),
            };
            let base_url = match &provider_config.base_url {
                Some(b) => b,
                None => {
                    return Err("自定义供应商缺少 Base URL".to_string());
                },
            };
            let d2a = toml_set_str(d1.as_str(), "model_provider", pid.as_str());
            let d2 = if toml_contains(d2a.as_str(), "model_providers") {
                d2a
            } else {
                toml_set_table(d2a.as_str(), "model_providers")
            };
            if !toml_key_is_table(d2.as_str(), "model_providers") {
                return Err("config.toml 中 model_providers 不是合法表结构".to_string());
            }
            let d3 = if toml_table_contains(d2.as_str(), "model_providers", pid.as_str()) {
                d2
            } else {
                toml_set_entry_table(d2.as_str(), "model_providers", pid.as_str())
            };
            if !toml_entry_is_table(d3.as_str(), "model_providers", pid.as_str()) {
                return Err("config.toml 中目标 provider 不是合法表结构".to_string());
            }
            let ghost d3v = d3@;
            let d4 = write_provider_entry(d3, pid.as_str(), name, base_url.as_str(), false, None);
            assert(provider_written(base, *provider_config, strs(managed_ids@)) == Ok::<Seq<char>, Seq<char>>(d4@));
            assert forall|e: Seq<char>| e != pid@ implies #[trigger] toml_table_has(d4@, mp, e) == toml_table_has(src, mp, e) by {
                assert(toml_table_has(d1@, mp, e) == toml_table_has(doc@, mp, e));
                assert(toml_table_has(d2a@, mp, e) == toml_table_has(d1@, mp, e));
                assert(toml_table_has(d2@, mp, e) == toml_table_has(d2a@, mp, e));
                assert(toml_table_has(d3v, mp, e) == toml_table_has(d2@, mp, e));
            }
            assert forall|e: Seq<char>, k: Seq<char>| e != pid@ && toml_table_has(d4@, mp, e) implies #[trigger] toml_entry_str(d4@, mp, e, k)
                == toml_entry_str(src, mp, e, k) by {
                assert(toml_table_has(d4@, mp, e) == toml_table_has(d3v, mp, e));
                assert(toml_table_has(d3v, mp, e) == toml_table_has(d2@, mp, e));
                assert(toml_entry_str(d1@, mp, e, k) == toml_entry_str(doc@, mp, e, k));
                assert(toml_entry_str(d2a@, mp, e, k) == toml_entry_str(d1@, mp, e, k));
                assert(toml_entry_str(d3v, mp, e, k) == toml_entry_str(d2@, mp, e, k));
                if !toml_has(d2a@, mp) {
                    assert(!toml_table_has(d2a@, mp, e));
                }
            }
            proof {
                reveal_strlit("model_provider");
                reveal_strlit("model_providers");
                assert("model_provider"@.len() == 14 && "model_providers"@.len() == 15);
                assert("model_provider"@ != "model_providers"@);
                assert(toml_str(d4@, "model_provider"@) == Some(pid@));
                assert(name@ == written_provider_name(*provider_config, pid@));
            }
            Ok(Some(d4))
        },
    }
}

/// `write_api_key_provider_to_config_toml`'s edit of a document, for the
/// account's provider and key.
pub open spec fn api_key_provider_written(
    doc: Seq<char>,
    c: ApiProviderConfig,
    token: Seq<char>,
    managed_ids: Seq<Seq<char>>,
) -> Result<Seq<char>, Seq<char>> {
    api_key_provider_written_for(doc, opt_str(c.base_url), opt_str(c.provider_name), token, managed_ids)
}

/// `write_api_key_provider_to_config_toml`'s edit of a document, for a
/// provider with that base URL and name, and the key.
pub open spec fn api_key_provider_written_for(
    doc: Seq<char>,
    base: Option<Seq<char>>,
    provider_name: Option<Seq<char>>,
    token: Seq<char>,
    managed_ids: Seq<Seq<char>>,
) -> Result<Seq<char>, Seq<char>> {
    let base_url = match base {
        Some(b) => b,
        None => "https://api.openai.com/v1"@,
    };
    let name = match provider_name {
        Some(n) => if trim(n).len() > 0 {
            n
        } else {
            "OpenAI Official"@
        },
        None => "OpenAI Official"@,
    };
    let d1 = managed_providers_removed(
        toml_with_str(toml_without(doc, "openai_base_url"@), "model_provider"@, "codex_local_access"@),
        managed_ids,
    );
    let d2 = with_providers_table(d1);
    if !toml_table(d2, "model_providers"@) {
        Err("config.toml 中 model_providers 不是合法表结构"@)
    } else {
        let d3 = toml_with_entry_table(d2, "model_providers"@, "codex_local_access"@);
        Ok(provider_entry_written(d3, "codex_local_access"@, name, base_url, true, Some(token)))
    }
}

/// What `write_api_key_provider_to_config_toml` gives for a file's text
/// (empty when it cannot be read), a provider with that base URL and name,
/// a key and the managed provider ids: the document to write, or why not.
pub open spec fn api_key_config_text(
    existing: Seq<char>,
    base: Option<Seq<char>>,
    provider_name: Option<Seq<char>>,
    bearer_token: Seq<char>,
    managed_ids: Seq<Seq<char>>,
) -> Result<Seq<char>, Seq<char>> {
    match non_blank(bearer_token) {
        None => Err("API Key 账号缺少可写入 provider 的密钥"@),
        Some(k) => if trim(existing).len() != 0 {
            match toml_doc(existing) {
                Err(err) => Err(toml_error(err)),
                Ok(d) => api_key_provider_written_for(d, base, provider_name, k, managed_ids),
            }
        } else {
            api_key_provider_written_for(Seq::empty(), base, provider_name, k, managed_ids)
        },
    }
}

/// `write_api_key_provider_to_config_toml`, on the file's text (empty when
/// it cannot be read), the account's provider, its key and the managed
/// provider ids: the document to write, or why not.
pub fn write_api_key_provider_to_config_toml(
    existing: &str,
    provider_config: &ApiProviderConfig,
    bearer_token: &str,
    managed_ids: &Vec<String>,
) -> (r: Result<String, String>)
    ensures
        match api_key_config_text(
            existing@,
            opt_str(provider_config.base_url),
            opt_str(provider_config.provider_name),
            bearer_token@,
            strs(managed_ids@),
        ) {
            Ok(t) => r matches Ok(x) && x@ == t,
            Err(e) => r matches Err(m) && m@ == e,
        },
        non_blank(bearer_token@) is None ==> (r matches Err(m) && m@ == "API Key 账号缺少可写入 provider 的密钥"@),
        r matches Ok(t) ==> config_provider(Some(t@)) == provider_read_back(
            Some(
                match provider_config.base_url {
                    Some(b) => b@,
                    None => "https://api.openai.com/v1"@,
                },
            ),
            Some("codex_local_access"@),
            Some(
                match provider_config.provider_name {
                    Some(n) => if trim(n@).len() > 0 {
                        n@
                    } else {
                        "OpenAI Official"@
                    },
                    None => "OpenAI Official"@,
                },
            ),
        ),
        non_blank(bearer_token@) is Some && trim(existing@).len() != 0 ==> match toml_doc(existing@) {
            Err(err) => r matches Err(m) && m@ == toml_error(err),
            Ok(d) => match api_key_provider_written(d, *provider_config, non_blank(bearer_token@)->0, strs(managed_ids@)) {
                Ok(t) => r matches Ok(x) && x@ == t,
                Err(err) => r matches Err(m) && m@ == err,
            },
        },
        non_blank(bearer_token@) is Some && trim(existing@).len() == 0 ==> (
            match api_key_provider_written(
                Seq::empty(),
                *provider_config,
                non_blank(bearer_token@)->0,
                strs(managed_ids@),
            ) {
                Ok(t) => r matches Ok(x) && x@ == t,
                Err(err) => r matches Err(m) && m@ == err,
            }),
        r matches Ok(t) ==> {
            let cla = "codex_local_access"@;
            let src = edit_source(existing@);
            &&& keeps_top_level(src, t@, seq!["openai_base_url"@, "model_provider"@, "model_providers"@])
            &&& trim(existing@).len() == 0 ==> toml_holds_nothing(src)
            &&& toml_entry_str(t@, "model_providers"@, cla, "wire_api"@) == Some("responses"@)
            &&& toml_entry_str(t@, "model_providers"@, cla, "experimental_bearer_token"@) == non_blank(bearer_token@)
            &&& forall|e: Seq<char>|
                e != cla ==> #[trigger] toml_table_has(t@, "model_providers"@, e) == (toml_table_has(
                    src,
                    "model_providers"@,
                    e,
                ) && !strs(managed_ids@).contains(e))
            &&& forall|e: Seq<char>, k: Seq<char>|
                e != cla && toml_table_has(t@, "model_providers"@, e) ==> #[trigger] toml_entry_str(
                    t@,
                    "model_providers"@,
                    e,
                    k,
                ) == toml_entry_str(src, "model_providers"@, e, k)
        },
{
    let token = match normalize_api_key(bearer_token) {
        Some(t) => t,
        None => {
            return Err("API Key 账号缺少可写入 provider 的密钥".to_string());
        },
    };
    let base_url: &str = match &provider_config.base_url {
        Some(b) => b.as_str(),
        None => "https://api.openai.com/v1",
    };
    let name: &str = match &provider_config.provider_name {
        Some(n) => if crate::text::trimmed(n.as_str()).len() > 0 {
            n.as_str()
        } else {
            "OpenAI Official"
        },
        None => "OpenAI Official",
    };
    let doc = match edit_base(existing) {
        Ok(d) => d,
        Err(e) => {
            return Err(e);
        },
    };
    let ghost base = doc@;
    let d1 = toml_remove(doc.as_str(), "openai_base_url");
    let d2 = toml_set_str(d1.as_str(), "model_provider", "codex_local_access");
    let d3 = remove_managed_api_key_model_providers_from_doc(d2.as_str(), managed_ids);
    let d4 = if toml_contains(d3.as_str(), "model_providers") {
        d3
    } else {
        toml_set_table(d3.as_str(), "model_providers")
    };
    if !toml_key_is_table(d4.as_str(), "model_providers") {
        return Err("config.toml 中 model_providers 不是合法表结构".to_string());
    }
    let d5 = toml_set_entry_table(d4.as_str(), "model_providers", "codex_local_access");
    let ghost d5v = d5@;
    let d6 = write_provider_entry(d5, "codex_local_access", name, base_url, true, Some(token.as_str()));
    proof {
        let src = edit_source(existing@);
        let mp = "model_providers"@;
        let cla = "codex_local_access"@;
        assert(toml_reads_alike(doc@, src));
        reveal_strlit("model_provider");
        reveal_strlit("model_providers");
        reveal_strlit("openai_base_url");
        assert("model_provider"@.len() == 14 && "model_providers"@.len() == 15);
        assert("openai_base_url"@.len() == 15);
        assert("model_provider"@ != "model_providers"@);
        assert("model_provider"@ != "openai_base_url"@);
        assert("openai_base_url"@[0] != "model_providers"@[0]);
        assert("openai_base_url"@ != "model_providers"@);
        assert forall|k: Seq<char>| !seq!["openai_base_url"@, "model_provider"@, "model_providers"@].contains(k) implies k
            != "model_provider"@ && k != "openai_base_url"@ && k != mp by {
            lemma_three_keys("openai_base_url"@, "model_provider"@, "model_providers"@, k);
        }
        assert forall|e: Seq<char>| e != cla implies #[trigger] toml_table_has(d6@, mp, e) == (toml_table_has(src, mp, e)
            && !strs(managed_ids@).contains(e)) by {
            assert(toml_table_has(d1@, mp, e) == toml_table_has(doc@, mp, e));
            assert(toml_table_has(d2@, mp, e) == toml_table_has(d1@, mp, e));
            assert(toml_table_has(d3@, mp, e) == (toml_table_has(d2@, mp, e) && !strs(managed_ids@).contains(e)));
            if !toml_has(d3@, mp) {
                assert(!toml_table_has(d3@, mp, e));
            }
            assert(toml_table_has(d4@, mp, e) == toml_table_has(d3@, mp, e));
            assert(toml_table_has(d5v, mp, e) == toml_table_has(d4@, mp, e));
        }
        assert forall|e: Seq<char>, k: Seq<char>| e != cla && toml_table_has(d6@, mp, e) implies #[trigger] toml_entry_str(
            d6@,
            mp,
            e,
            k,
        ) == toml_entry_str(src, mp, e, k) by {
            assert(toml_table_has(d5v, mp, e) == toml_table_has(d4@, mp, e));
            if !toml_has(d3@, mp) {
                assert(!toml_table_has(d4@, mp, e));
            }
            assert(toml_table_has(d4@, mp, e) == toml_table_has(d3@, mp, e));
            assert(toml_entry_str(d5v, mp, e, k) == toml_entry_str(d4@, mp, e, k));
            assert(toml_entry_str(d3@, mp, e, k) == toml_entry_str(d2@, mp, e, k));
            assert(toml_entry_str(d2@, mp, e, k) == toml_entry_str(d1@, mp, e, k));
            assert(toml_entry_str(d1@, mp, e, k) == toml_entry_str(doc@, mp, e, k));
        }
    }
    assert(api_key_provider_written(base, *provider_config, token@, strs(managed_ids@)) == Ok::<Seq<char>, Seq<char>>(
        d6@,
    ));
    proof {
        reveal_strlit("model_provider");
        reveal_strlit("model_providers");
        reveal_strlit("codex_local_access");
        assert("model_provider"@.len() == 14 && "model_providers"@.len() == 15);
        assert("model_provider"@ != "model_providers"@);
        assert(toml_str(d6@, "model_provider"@) == Some("codex_local_access"@));
        let cla = "codex_local_access"@;
        assert(!crate::text::is_ws(cla[0]) && !crate::text::is_ws(cla.last()));
        assert(crate::text::trim_start(cla) == cla);
        assert(trim(cla) == cla);
        assert(non_blank(cla) == Some(cla));
    }
    Ok(d6)
}

} // verus!
