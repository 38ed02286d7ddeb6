//! What importing pasted JSON stores. The text is read, before anything is
//! stored, as token lines, as Codex's `auth.json`, as a Sub2API export, as
//! JSON values or as JSON lines; the plan lists the logins in the order the
//! import stores them and the error it ends with.
use vstd::prelude::*;
use crate::codex::{non_blank, normalize_api_base_url, normalized_base_url, CodexAccount, CodexAuthTokens};
use crate::codex_compat::{api_base_url_in, api_key_import_from_value, api_key_in, names_api_key_mode, ApiKeyImport};
use crate::codex_import::{
    auth_file_login, candidate_view, import_candidate, is_sub2api_codex_oauth_account, is_sub2api_oauth,
    is_token_lines, json_import_is_token_lines, line_delimited_values, looks_like_sub2api,
    looks_like_sub2api_export, parse_line_delimited_json_values, present_items, sub2api_candidate,
    sub2api_missing_token, token_line_candidate, token_line_values_of, token_lines_values, token_missing,
    AuthFileLogin, CandidateView, CodexJsonImportCandidate, extract_codex_import_candidate_from_value,
};
use crate::external::{
    json_array_len, json_array_length, json_as_string, json_from_text, json_get_item, json_get_member, json_item,
    json_member, json_object_values, json_string, json_values, parse_json_text,
};
use crate::strings::{opt_str, strs};
use crate::text::{lower, str_eq, trim};

verus! {

broadcast use vstd::string::group_string_axioms;

// ---------------------------------------------------------------------------
// Codex's auth.json, as serde reads it
// ---------------------------------------------------------------------------

/// The tokens of an `auth.json` as texts: id token, access token, refresh
/// token, account id.
pub open spec fn auth_tokens_view(t: CodexAuthTokens) -> (Seq<char>, Seq<char>, Option<Seq<char>>, Option<Seq<char>>) {
    (t.id_token@, t.access_token@, opt_str(t.refresh_token), opt_str(t.account_id))
}

/// An optional string field, given by its JSON text (`None` when absent):
/// `Some(None)` when absent or null, `Some(Some(s))` for a string, `None`
/// when it holds anything else, which fails the whole read.
pub open spec fn optional_string_field(field: Option<Seq<char>>) -> Option<Option<Seq<char>>> {
    match field {
        None => Some(None),
        Some(t) => if t == "null"@ {
            Some(None)
        } else {
            match json_string(t) {
                Some(s) => Some(Some(s)),
                None => None,
            }
        },
    }
}

/// A required string field: its string, or `None`, which fails the read.
pub open spec fn required_string_field(field: Option<Seq<char>>) -> Option<Seq<char>> {
    match field {
        Some(t) => json_string(t),
        None => None,
    }
}

/// The tokens read from their four fields, in order.
pub open spec fn fields_tokens(
    id: Option<Seq<char>>,
    access: Option<Seq<char>>,
    refresh: Option<Seq<char>>,
    account: Option<Seq<char>>,
) -> Option<(Seq<char>, Seq<char>, Option<Seq<char>>, Option<Seq<char>>)> {
    match (
        required_string_field(id),
        required_string_field(access),
        optional_string_field(refresh),
        optional_string_field(account),
    ) {
        (Some(i), Some(a), Some(r), Some(c)) => Some((i, a, r, c)),
        _ => None,
    }
}

/// Item `i` of an array of `n` items, none past its end.
pub open spec fn item_below(v: Seq<char>, i: usize, n: usize) -> Option<Seq<char>> {
    if i < n {
        json_item(v, i)
    } else {
        None
    }
}

/// The tokens a JSON text holds: an object with the string members
/// `id_token` and `access_token` and the optional string members
/// `refresh_token` and `account_id`, or an array of two to four such
/// fields in that order.
pub open spec fn auth_tokens_in(t: Seq<char>) -> Option<(Seq<char>, Seq<char>, Option<Seq<char>>, Option<Seq<char>>)> {
    if json_values(t) is Some {
        fields_tokens(
            json_member(t, "id_token"@),
            json_member(t, "access_token"@),
            json_member(t, "refresh_token"@),
            json_member(t, "account_id"@),
        )
    } else {
        match json_array_len(t) {
            Some(n) => if 2 <= n <= 4 {
                fields_tokens(item_below(t, 0, n), item_below(t, 1, n), item_below(t, 2, n), item_below(t, 3, n))
            } else {
                None
            },
            None => None,
        }
    }
}

/// The optional `tokens` field.
pub open spec fn optional_tokens_field(field: Option<Seq<char>>) -> Option<
    Option<(Seq<char>, Seq<char>, Option<Seq<char>>, Option<Seq<char>>)>,
> {
    match field {
        None => Some(None),
        Some(t) => if t == "null"@ {
            Some(None)
        } else {
            match auth_tokens_in(t) {
                Some(x) => Some(Some(x)),
                None => None,
            }
        },
    }
}

/// The `OPENAI_API_KEY` field, a JSON value of any kind: its string, when
/// it is one.
pub open spec fn api_key_field(field: Option<Seq<char>>) -> Option<Seq<char>> {
    match field {
        Some(t) => if t == "null"@ {
            None
        } else {
            json_string(t)
        },
        None => None,
    }
}

/// An `auth.json` read from its fields (auth mode, API key, base URL,
/// tokens): the auth mode, the API key when a string, the base URL and the
/// tokens; `None` when a field has the wrong kind.
pub open spec fn auth_file_fields(
    mode: Option<Seq<char>>,
    key: Option<Seq<char>>,
    base: Option<Seq<char>>,
    tokens: Option<Seq<char>>,
) -> Option<
    (
        Option<Seq<char>>,
        Option<Seq<char>>,
        Option<Seq<char>>,
        Option<(Seq<char>, Seq<char>, Option<Seq<char>>, Option<Seq<char>>)>,
    ),
> {
    match (optional_string_field(mode), optional_string_field(base), optional_tokens_field(tokens)) {
        (Some(m), Some(b), Some(t)) => Some((m, api_key_field(key), b, t)),
        _ => None,
    }
}

/// The `auth.json` a JSON text holds: an object with the members
/// `auth_mode`, `OPENAI_API_KEY`, `base_url` and `tokens` (each may be
/// absent), or an array of at most five fields in the order auth mode, API
/// key, base URL, tokens, last refresh.
pub open spec fn auth_file_in(v: Seq<char>) -> Option<
    (
        Option<Seq<char>>,
        Option<Seq<char>>,
        Option<Seq<char>>,
        Option<(Seq<char>, Seq<char>, Option<Seq<char>>, Option<Seq<char>>)>,
    ),
> {
    if json_values(v) is Some {
        auth_file_fields(
            json_member(v, "auth_mode"@),
            json_member(v, "OPENAI_API_KEY"@),
            json_member(v, "base_url"@),
            json_member(v, "tokens"@),
        )
    } else {
        match json_array_len(v) {
            Some(n) => if n <= 5 {
                auth_file_fields(item_below(v, 0, n), item_below(v, 1, n), item_below(v, 2, n), item_below(v, 3, n))
            } else {
                None
            },
            None => None,
        }
    }
}

/// Optional tokens as texts.
pub open spec fn opt_tokens_view(o: Option<CodexAuthTokens>) -> Option<
    (Seq<char>, Seq<char>, Option<Seq<char>>, Option<Seq<char>>),
> {
    match o {
        Some(t) => Some(auth_tokens_view(t)),
        None => None,
    }
}

/// An optional string field.
fn optional_string_of(field: Option<String>) -> (r: Option<Option<String>>)
    ensures
        match optional_string_field(opt_str(field)) {
            Some(x) => r matches Some(y) && opt_str(y) == x,
            None => r is None,
        },
{
    match field {
        None => Some(None),
        Some(t) => {
            if str_eq(t.as_str(), "null") {
                Some(None)
            } else {
                match json_as_string(t.as_str()) {
                    Some(s) => Some(Some(s)),
                    None => None,
                }
            }
        },
    }
}

/// A required string field.
fn required_string_of(field: Option<String>) -> (r: Option<String>)
    ensures
        opt_str(r) == required_string_field(opt_str(field)),
{
    match field {
        Some(t) => json_as_string(t.as_str()),
        None => None,
    }
}

/// The tokens read from their four fields.
fn tokens_of_fields(id: Option<String>, access: Option<String>, refresh: Option<String>, account: Option<String>) -> (r:
    Option<CodexAuthTokens>)
    ensures
        opt_tokens_view(r) == fields_tokens(opt_str(id), opt_str(access), opt_str(refresh), opt_str(account)),
{
    let id_token = match required_string_of(id) {
        Some(s) => s,
        None => {
            return None;
        },
    };
    let access_token = match required_string_of(access) {
        Some(s) => s,
        None => {
            return None;
        },
    };
    let refresh_token = match optional_string_of(refresh) {
        Some(s) => s,
        None => {
            return None;
        },
    };
    let account_id = match optional_string_of(account) {
        Some(s) => s,
        None => {
            return None;
        },
    };
    Some(CodexAuthTokens { id_token, access_token, refresh_token, account_id })
}

/// Item `i` of an array of `n` items.
fn item_if_below(v: &str, i: usize, n: usize) -> (r: Option<String>)
    ensures
        opt_str(r) == item_below(v@, i, n),
{
    if i < n {
        json_get_item(v, i)
    } else {
        None
    }
}

/// The tokens a JSON text holds.
fn auth_tokens_of(t: &str) -> (r: Option<CodexAuthTokens>)
    ensures
        opt_tokens_view(r) == auth_tokens_in(t@),
{
    if json_object_values(t).is_some() {
        tokens_of_fields(
            json_get_member(t, "id_token"),
            json_get_member(t, "access_token"),
            json_get_member(t, "refresh_token"),
            json_get_member(t, "account_id"),
        )
    } else {
        match json_array_length(t) {
            Some(n) => {
                if 2 <= n && n <= 4 {
                    tokens_of_fields(
                        item_if_below(t, 0, n),
                        item_if_below(t, 1, n),
                        item_if_below(t, 2, n),
                        item_if_below(t, 3, n),
                    )
                } else {
                    None
                }
            },
            None => None,
        }
    }
}

/// The optional `tokens` field.
fn optional_tokens_of(field: Option<String>) -> (r: Option<Option<CodexAuthTokens>>)
    ensures
        match optional_tokens_field(opt_str(field)) {
            Some(x) => r matches Some(y) && opt_tokens_view(y) == x,
            None => r is None,
        },
{
    match field {
        None => Some(None),
        Some(t) => {
            if str_eq(t.as_str(), "null") {
                Some(None)
            } else {
                match auth_tokens_of(t.as_str()) {
                    Some(x) => Some(Some(x)),
                    None => None,
                }
            }
        },
    }
}

/// The `OPENAI_API_KEY` field's string.
fn api_key_of(field: Option<String>) -> (r: Option<String>)
    ensures
        opt_str(r) == api_key_field(opt_str(field)),
{
    match field {
        Some(t) => {
            if str_eq(t.as_str(), "null") {
                None
            } else {
                json_as_string(t.as_str())
            }
        },
        None => None,
    }
}

/// An `auth.json` read from its fields.
fn auth_file_of_fields(mode: Option<String>, key: Option<String>, base: Option<String>, tokens: Option<String>) -> (r:
    Option<(Option<String>, Option<String>, Option<String>, Option<CodexAuthTokens>)>)
    ensures
        match auth_file_fields(opt_str(mode), opt_str(key), opt_str(base), opt_str(tokens)) {
            Some(x) => r matches Some(f) && (opt_str(f.0), opt_str(f.1), opt_str(f.2), opt_tokens_view(f.3)) == x,
            None => r is None,
        },
{
    let m = match optional_string_of(mode) {
        Some(m) => m,
        None => {
            return None;
        },
    };
    let b = match optional_string_of(base) {
        Some(b) => b,
        None => {
            return None;
        },
    };
    let t = match optional_tokens_of(tokens) {
        Some(t) => t,
        None => {
            return None;
        },
    };
    Some((m, api_key_of(key), b, t))
}

/// The `auth.json` a JSON text holds.
fn read_auth_file(v: &str) -> (r: Option<(Option<String>, Option<String>, Option<String>, Option<CodexAuthTokens>)>)
    ensures
        match auth_file_in(v@) {
            Some(x) => r matches Some(f) && (opt_str(f.0), opt_str(f.1), opt_str(f.2), opt_tokens_view(f.3)) == x,
            None => r is None,
        },
{
    if json_object_values(v).is_some() {
        auth_file_of_fields(
            json_get_member(v, "auth_mode"),
            json_get_member(v, "OPENAI_API_KEY"),
            json_get_member(v, "base_url"),
            json_get_member(v, "tokens"),
        )
    } else {
        match json_array_length(v) {
            Some(n) => {
                if n <= 5 {
                    auth_file_of_fields(
                        item_if_below(v, 0, n),
                        item_if_below(v, 1, n),
                        item_if_below(v, 2, n),
                        item_if_below(v, 3, n),
                    )
                } else {
                    None
                }
            },
            None => None,
        }
    }
}

/// Codex's `auth.json` as the library reads it: its auth mode, its API key
/// when that is a string, its base URL and its tokens.
#[derive(Debug)]
pub struct CodexAuthFileFields {
    pub auth_mode: Option<String>,
    pub api_key: Option<String>,
    pub base_url: Option<String>,
    pub tokens: Option<CodexAuthTokens>,
}

/// The `auth.json` a file's text holds, when it holds one.
pub open spec fn auth_file_text(content: Seq<char>) -> Option<
    (
        Option<Seq<char>>,
        Option<Seq<char>>,
        Option<Seq<char>>,
        Option<(Seq<char>, Seq<char>, Option<Seq<char>>, Option<Seq<char>>)>,
    ),
> {
    match json_from_text(content) {
        Ok(v) => auth_file_in(v),
        Err(_) => None,
    }
}

/// Reads Codex's `auth.json` from a file's text.
pub fn read_codex_auth_file(content: &str) -> (r: Option<CodexAuthFileFields>)
    ensures
        match auth_file_text(content@) {
            Some(x) => r matches Some(f) && (opt_str(f.auth_mode), opt_str(f.api_key), opt_str(f.base_url), opt_tokens_view(
                f.tokens,
            )) == x,
            None => r is None,
        },
{
    let v = match parse_json_text(content) {
        Ok(v) => v,
        Err(_) => {
            return None;
        },
    };
    match read_auth_file(v.as_str()) {
        Some((auth_mode, api_key, base_url, tokens)) => Some(CodexAuthFileFields { auth_mode, api_key, base_url, tokens }),
        None => None,
    }
}

// ---------------------------------------------------------------------------
// The plan
// ---------------------------------------------------------------------------

/// Candidates as texts.
pub open spec fn candidate_views(cs: Seq<CodexJsonImportCandidate>) -> Seq<CandidateView> {
    cs.map_values(|c: CodexJsonImportCandidate| candidate_view(c))
}

/// What importing pasted JSON stores, as texts.
pub enum JsonImportPlanView {
    TokenLines { logins: Seq<CandidateView>, stop: Option<Seq<char>> },
    AuthFileApiKey {
        api_key: Seq<char>,
        base_url: Option<Seq<char>>,
        api_provider_id: Option<Seq<char>>,
        api_provider_name: Option<Seq<char>>,
        raw: Seq<char>,
    },
    AuthFileTokens { tokens: (Seq<char>, Seq<char>, Option<Seq<char>>, Option<Seq<char>>) },
    Sub2Api { logins: Seq<CandidateView>, stop: Option<Seq<char>> },
    Values { values: Seq<Seq<char>>, fallback: Result<Seq<Seq<char>>, Seq<char>> },
}

/// What importing pasted JSON stores, in order.
#[derive(Debug)]
pub enum JsonImportPlan {
    /// Token lines: the logins of their values, in order; `stop` is the
    /// error met at the first value without one, returned once the logins
    /// before it are stored.
    TokenLines { logins: Vec<CodexJsonImportCandidate>, stop: Option<String> },
    /// An `auth.json` with an API key: the key, the file's base URL
    /// (normalized), the provider id and name the JSON names, and the JSON
    /// text, which also names the provider mode and the account's metadata.
    AuthFileApiKey {
        api_key: String,
        base_url: Option<String>,
        api_provider_id: Option<String>,
        api_provider_name: Option<String>,
        raw: String,
    },
    /// An `auth.json` with OAuth tokens.
    AuthFileTokens { tokens: CodexAuthTokens },
    /// A Sub2API export: the logins of its OpenAI OAuth accounts, in order,
    /// and the error met at the first without a usable token.
    Sub2Api { logins: Vec<CodexJsonImportCandidate>, stop: Option<String> },
    /// JSON values, each imported as one account when it holds one (the
    /// object, or the items of the array, that the text holds); when none
    /// gives an account, `fallback`: the JSON lines, each of which must give
    /// one, or the error the import ends with.
    Values { values: Vec<String>, fallback: Result<Vec<String>, String> },
}

/// A plan as texts.
pub open spec fn plan_view(p: JsonImportPlan) -> JsonImportPlanView {
    match p {
        JsonImportPlan::TokenLines { logins, stop } => JsonImportPlanView::TokenLines {
            logins: candidate_views(logins@),
            stop: opt_str(stop),
        },
        JsonImportPlan::AuthFileApiKey { api_key, base_url, api_provider_id, api_provider_name, raw } =>
            JsonImportPlanView::AuthFileApiKey {
            api_key: api_key@,
            base_url: opt_str(base_url),
            api_provider_id: opt_str(api_provider_id),
            api_provider_name: opt_str(api_provider_name),
            raw: raw@,
        },
        JsonImportPlan::AuthFileTokens { tokens } => JsonImportPlanView::AuthFileTokens {
            tokens: auth_tokens_view(tokens),
        },
        JsonImportPlan::Sub2Api { logins, stop } => JsonImportPlanView::Sub2Api {
            logins: candidate_views(logins@),
            stop: opt_str(stop),
        },
        JsonImportPlan::Values { values, fallback } => JsonImportPlanView::Values {
            values: strs(values@),
            fallback: match fallback {
                Ok(vs) => Ok(strs(vs@)),
                Err(e) => Err(e@),
            },
        },
    }
}

/// The logins of the first `k` token line values, up to the first value
/// without one; and whether such a value was met.
pub open spec fn token_logins(values: Seq<Seq<char>>, k: int) -> (Seq<CandidateView>, bool)
    decreases k,
{
    if k <= 0 {
        (Seq::empty(), false)
    } else {
        let prev = token_logins(values, k - 1);
        if prev.1 {
            prev
        } else {
            match import_candidate(values[k - 1]) {
                Some(c) => (prev.0.push(c), false),
                None => (prev.0, true),
            }
        }
    }
}

/// The logins of the OpenAI OAuth accounts among the first `k` items of a
/// Sub2API `accounts` array, up to the first without a usable token; and
/// that item's index.
pub open spec fn sub2api_logins(accounts: Seq<char>, k: int) -> (Seq<CandidateView>, Option<nat>)
    decreases k,
{
    if k <= 0 {
        (Seq::empty(), None)
    } else {
        let prev = sub2api_logins(accounts, k - 1);
        if prev.1 is Some {
            prev
        } else {
            match json_item(accounts, (k - 1) as usize) {
                Some(it) => if is_sub2api_oauth(it) {
                    match import_candidate(it) {
                        Some(c) => (prev.0.push(c), None),
                        None => (prev.0, Some((k - 1) as nat)),
                    }
                } else {
                    prev
                },
                None => prev,
            }
        }
    }
}

/// The string member `key` of a JSON object text.
pub open spec fn string_member(v: Seq<char>, key: Seq<char>) -> Option<Seq<char>> {
    match json_member(v, key) {
        Some(m) => json_string(m),
        None => None,
    }
}

/// The plan for an `auth.json` API key login.
pub open spec fn auth_file_api_key_plan(v: Seq<char>, api_key: Seq<char>, base_url: Option<Seq<char>>) -> JsonImportPlanView {
    JsonImportPlanView::AuthFileApiKey {
        api_key,
        base_url: normalized_base_url(base_url),
        api_provider_id: string_member(v, "api_provider_id"@),
        api_provider_name: string_member(v, "api_provider_name"@),
        raw: v,
    }
}

/// The text read as Codex's `auth.json`: in API key mode its key (an error
/// without one), else its tokens when it has them, else its key when it has
/// one; `None` when the text holds no `auth.json` or it holds neither.
pub open spec fn auth_file_plan(content: Seq<char>) -> Option<Result<JsonImportPlanView, Seq<char>>> {
    match json_from_text(content) {
        Err(_) => None,
        Ok(v) => match auth_file_in(v) {
            None => None,
            Some(f) => {
                let key = match f.1 {
                    Some(k) => non_blank(k),
                    None => None,
                };
                let apikey_mode = match f.0 {
                    Some(m) => lower(trim(m)) == "apikey"@,
                    None => false,
                };
                if apikey_mode {
                    match key {
                        Some(k) => Some(Ok(auth_file_api_key_plan(v, k, f.2))),
                        None => Some(Err("auth.json 缺少 OPENAI_API_KEY"@)),
                    }
                } else {
                    match f.3 {
                        Some(t) => Some(Ok(JsonImportPlanView::AuthFileTokens { tokens: t })),
                        None => match key {
                            Some(k) => Some(Ok(auth_file_api_key_plan(v, k, f.2))),
                            None => None,
                        },
                    }
                }
            },
        },
    }
}

/// The JSON lines read when no value gives an account: their objects, or
/// the error (with fewer than two lines, that nothing could be read).
pub open spec fn line_fallback(content: Seq<char>) -> Result<Seq<Seq<char>>, Seq<char>> {
    match line_delimited_values(content) {
        Ok(Some(vs)) => Ok(vs),
        Ok(None) => Err("无法解析 JSON 内容"@),
        Err(e) => Err(e),
    }
}

/// A Sub2API export: its OpenAI OAuth logins, refused when there are none.
pub open spec fn sub2api_plan(v: Seq<char>) -> Result<JsonImportPlanView, Seq<char>> {
    match json_member(v, "accounts"@) {
        Some(a) => match json_array_len(a) {
            Some(n) => {
                let found = sub2api_logins(a, n as int);
                match found.1 {
                    Some(i) => Ok(JsonImportPlanView::Sub2Api { logins: found.0, stop: Some(sub2api_missing_token(i)) }),
                    None => if found.0.len() == 0 {
                        Err("Sub2API JSON 中未找到可导入的 OpenAI OAuth access_token"@)
                    } else {
                        Ok(JsonImportPlanView::Sub2Api { logins: found.0, stop: None })
                    },
                }
            },
            None => Err("Sub2API JSON 缺少 accounts 数组"@),
        },
        None => Err("Sub2API JSON 缺少 accounts 数组"@),
    }
}

/// The text read as JSON: a Sub2API export; else the object it holds, or
/// the items of the array it holds, each as one account; with the JSON
/// lines behind them.
pub open spec fn value_plan(content: Seq<char>) -> Result<JsonImportPlanView, Seq<char>> {
    let fallback = line_fallback(content);
    match json_from_text(content) {
        Err(_) => Ok(JsonImportPlanView::Values { values: Seq::empty(), fallback }),
        Ok(v) => if looks_like_sub2api(v) {
            sub2api_plan(v)
        } else if json_values(v) is Some {
            Ok(JsonImportPlanView::Values { values: seq![v], fallback })
        } else {
            match json_array_len(v) {
                Some(n) => Ok(JsonImportPlanView::Values { values: present_items(v, n as int), fallback }),
                None => Ok(JsonImportPlanView::Values { values: Seq::empty(), fallback }),
            }
        },
    }
}

/// Importing pasted JSON, before anything is stored: token lines when the text
/// is not blank and starts with neither `{` nor `[`; else an `auth.json`
/// that holds a login; else the text read as JSON and as JSON lines.
pub open spec fn json_import_plan(content: Seq<char>) -> Result<JsonImportPlanView, Seq<char>> {
    if is_token_lines(content) {
        match token_lines_values(content) {
            Err(e) => Err(e),
            Ok(vs) => {
                let found = token_logins(vs, vs.len() as int);
                Ok(
                    JsonImportPlanView::TokenLines {
                        logins: found.0,
                        stop: if found.1 {
                            Some(token_missing())
                        } else {
                            None
                        },
                    },
                )
            },
        }
    } else {
        match auth_file_plan(content) {
            Some(r) => r,
            None => value_plan(content),
        }
    }
}

proof fn lemma_token_logins_stop_stays(values: Seq<Seq<char>>, k: int, m: int)
    requires
        0 <= k <= m,
        token_logins(values, k).1,
    ensures
        token_logins(values, m) == token_logins(values, k),
    decreases m - k,
{
    if m > k {
        lemma_token_logins_stop_stays(values, k, m - 1);
    }
}

proof fn lemma_sub2api_stop_stays(accounts: Seq<char>, k: int, m: int)
    requires
        0 <= k <= m,
        sub2api_logins(accounts, k).1 is Some,
    ensures
        sub2api_logins(accounts, m) == sub2api_logins(accounts, k),
    decreases m - k,
{
    if m > k {
        lemma_sub2api_stop_stays(accounts, k, m - 1);
    }
}

/// The logins of token line values.
fn token_lines_plan(values: &Vec<String>) -> (r: JsonImportPlan)
    ensures
        ({
            let found = token_logins(strs(values@), values@.len() as int);
            plan_view(r) == JsonImportPlanView::TokenLines {
                logins: found.0,
                stop: if found.1 {
                    Some(token_missing())
                } else {
                    None
                },
            }
        }),
{
    let ghost vs = strs(values@);
    let mut logins: Vec<CodexJsonImportCandidate> = Vec::new();
    let mut i: usize = 0;
    while i < values.len()
        invariant
            i <= values@.len(),
            vs == strs(values@),
            candidate_views(logins@) == token_logins(vs, i as int).0,
            !token_logins(vs, i as int).1,
        decreases values.len() - i,
    {
        assert(vs[i as int] == values@[i as int]@);
        match token_line_candidate(values[i].as_str()) {
            Ok(c) => {
                logins.push(c);
                assert(candidate_views(logins@) =~= token_logins(vs, i as int).0.push(candidate_view(c)));
            },
            Err(e) => {
                proof {
                    lemma_token_logins_stop_stays(vs, i + 1, vs.len() as int);
                }
                return JsonImportPlan::TokenLines { logins, stop: Some(e) };
            },
        }
        i += 1;
    }
    JsonImportPlan::TokenLines { logins, stop: None }
}

/// The logins of a Sub2API `accounts` array of `n` items.
fn sub2api_found(accounts: &str, n: usize) -> (r: (Vec<CodexJsonImportCandidate>, Option<String>))
    ensures
        candidate_views(r.0@) == sub2api_logins(accounts@, n as int).0,
        match sub2api_logins(accounts@, n as int).1 {
            Some(i) => r.1 matches Some(e) && e@ == sub2api_missing_token(i),
            None => r.1 is None,
        },
{
    let mut logins: Vec<CodexJsonImportCandidate> = Vec::new();
    let mut i: usize = 0;
    while i < n
        invariant
            i <= n,
            candidate_views(logins@) == sub2api_logins(accounts@, i as int).0,
            sub2api_logins(accounts@, i as int).1 is None,
        decreases n - i,
    {
        match json_get_item(accounts, i) {
            Some(it) => {
                if is_sub2api_codex_oauth_account(it.as_str()) {
                    match sub2api_candidate(it.as_str(), i) {
                        Ok(c) => {
                            logins.push(c);
                            assert(candidate_views(logins@) =~= sub2api_logins(accounts@, i as int).0.push(
                                candidate_view(c),
                            ));
                        },
                        Err(e) => {
                            proof {
                                lemma_sub2api_stop_stays(accounts@, i + 1, n as int);
                            }
                            return (logins, Some(e));
                        },
                    }
                }
            },
            None => {},
        }
        i += 1;
    }
    (logins, None)
}

/// A Sub2API export's plan.
fn sub2api_step(v: &str) -> (r: Result<JsonImportPlan, String>)
    ensures
        match sub2api_plan(v@) {
            Ok(p) => r matches Ok(x) && plan_view(x) == p,
            Err(e) => r matches Err(m) && m@ == e,
        },
{
    let accounts = match json_get_member(v, "accounts") {
        Some(a) => a,
        None => {
            return Err("Sub2API JSON 缺少 accounts 数组".to_string());
        },
    };
    let n = match json_array_length(accounts.as_str()) {
        Some(n) => n,
        None => {
            return Err("Sub2API JSON 缺少 accounts 数组".to_string());
        },
    };
    let (logins, stop) = sub2api_found(accounts.as_str(), n);
    if stop.is_none() && logins.len() == 0 {
        return Err("Sub2API JSON 中未找到可导入的 OpenAI OAuth access_token".to_string());
    }
    Ok(JsonImportPlan::Sub2Api { logins, stop })
}

/// The items of a JSON array of `n` items.
fn array_items(v: &str, n: usize) -> (r: Vec<String>)
    ensures
        strs(r@) == present_items(v@, n as int),
{
    let mut r: Vec<String> = Vec::new();
    let mut i: usize = 0;
    while i < n
        invariant
            i <= n,
            strs(r@) == present_items(v@, i as int),
        decreases n - i,
    {
        match json_get_item(v, i) {
            Some(it) => {
                r.push(it);
                assert(strs(r@) =~= strs(r@.drop_last()).push(r@.last()@));
            },
            None => {},
        }
        i += 1;
    }
    r
}

/// The JSON lines behind the values.
fn line_fallback_of(content: &str) -> (r: Result<Vec<String>, String>)
    ensures
        match line_fallback(content@) {
            Ok(vs) => r matches Ok(v) && strs(v@) == vs,
            Err(e) => r matches Err(m) && m@ == e,
        },
{
    match parse_line_delimited_json_values(content) {
        Ok(Some(vs)) => Ok(vs),
        Ok(None) => Err("无法解析 JSON 内容".to_string()),
        Err(e) => Err(e),
    }
}

/// The text read as JSON.
fn value_step(content: &str) -> (r: Result<JsonImportPlan, String>)
    ensures
        match value_plan(content@) {
            Ok(p) => r matches Ok(x) && plan_view(x) == p,
            Err(e) => r matches Err(m) && m@ == e,
        },
{
    let fallback = line_fallback_of(content);
    let v = match parse_json_text(content) {
        Ok(v) => v,
        Err(_) => {
            let values: Vec<String> = Vec::new();
            assert(strs(values@) =~= Seq::<Seq<char>>::empty());
            return Ok(JsonImportPlan::Values { values, fallback });
        },
    };
    if looks_like_sub2api_export(v.as_str()) {
        return sub2api_step(v.as_str());
    }
    if json_object_values(v.as_str()).is_some() {
        let values = vec![v];
        assert(strs(values@) =~= seq![values@[0]@]);
        return Ok(JsonImportPlan::Values { values, fallback });
    }
    match json_array_length(v.as_str()) {
        Some(n) => Ok(JsonImportPlan::Values { values: array_items(v.as_str(), n), fallback }),
        None => {
            let values: Vec<String> = Vec::new();
            assert(strs(values@) =~= Seq::<Seq<char>>::empty());
            Ok(JsonImportPlan::Values { values, fallback })
        },
    }
}

/// The string member `key` of a JSON object text.
fn string_member_of(v: &str, key: &str) -> (r: Option<String>)
    ensures
        opt_str(r) == string_member(v@, key@),
{
    match json_get_member(v, key) {
        Some(m) => json_as_string(m.as_str()),
        None => None,
    }
}

/// An optional string, borrowed.
fn opt_as_str(o: &Option<String>) -> (r: Option<&str>)
    ensures
        match r {
            Some(s) => o matches Some(t) && s@ == t@,
            None => o is None,
        },
{
    match o {
        Some(t) => Some(t.as_str()),
        None => None,
    }
}

/// The text read as Codex's `auth.json`.
fn auth_file_step(content: &str) -> (r: Option<Result<JsonImportPlan, String>>)
    ensures
        match auth_file_plan(content@) {
            Some(Ok(p)) => r matches Some(Ok(x)) && plan_view(x) == p,
            Some(Err(e)) => r matches Some(Err(m)) && m@ == e,
            None => r is None,
        },
{
    let v = match parse_json_text(content) {
        Ok(v) => v,
        Err(_) => {
            return None;
        },
    };
    let (mode, key, base, tokens) = match read_auth_file(v.as_str()) {
        Some(f) => f,
        None => {
            return None;
        },
    };
    let login = match auth_file_login(opt_as_str(&mode), opt_as_str(&key), tokens.is_some()) {
        Ok(l) => l,
        Err(e) => {
            return Some(Err(e));
        },
    };
    match login {
        AuthFileLogin::ApiKey { api_key } => {
            let base_url = normalize_api_base_url(opt_as_str(&base));
            let api_provider_id = string_member_of(v.as_str(), "api_provider_id");
            let api_provider_name = string_member_of(v.as_str(), "api_provider_name");
            Some(Ok(JsonImportPlan::AuthFileApiKey { api_key, base_url, api_provider_id, api_provider_name, raw: v }))
        },
        AuthFileLogin::Tokens => match tokens {
            Some(t) => Some(Ok(JsonImportPlan::AuthFileTokens { tokens: t })),
            None => None,
        },
        AuthFileLogin::Neither => None,
    }
}

/// Importing pasted JSON, before anything is stored: the logins the pasted
/// text holds, in the order the import stores them, and the error it ends
/// with.
pub fn plan_json_import(json_content: &str) -> (r: Result<JsonImportPlan, String>)
    ensures
        match json_import_plan(json_content@) {
            Ok(p) => r matches Ok(x) && plan_view(x) == p,
            Err(e) => r matches Err(m) && m@ == e,
        },
{
    if json_import_is_token_lines(json_content) {
        return match token_line_values_of(json_content) {
            Ok(values) => Ok(token_lines_plan(&values)),
            Err(e) => Err(e),
        };
    }
    match auth_file_step(json_content) {
        Some(r) => r,
        None => value_step(json_content),
    }
}

// ---------------------------------------------------------------------------
// One imported JSON value
// ---------------------------------------------------------------------------

/// How one imported JSON value is stored.
#[derive(Debug)]
pub enum JsonValueImport {
    /// As an API key account.
    ApiKey(ApiKeyImport),
    /// As the login it holds.
    Login(CodexJsonImportCandidate),
    /// As the stored account it is written as.
    Stored(CodexAccount),
}

/// How one imported JSON value is stored, given the account it reads as
/// when it is written as a stored account (`stored`): an object in API key
/// mode with a key is an API key account; else the login it holds, if any;
/// else that stored account; else nothing.
pub fn plan_json_value_import(value: &str, stored: Option<CodexAccount>) -> (r: Option<JsonValueImport>)
    ensures
        names_api_key_mode(value@) && api_key_in(value@) is Some ==> (r matches Some(JsonValueImport::ApiKey(x)) && {
            &&& Some(x.api_key@) == api_key_in(value@)
            &&& opt_str(x.api_base_url) == api_base_url_in(value@)
            &&& opt_str(x.api_provider_id) == string_member(value@, "api_provider_id"@)
            &&& opt_str(x.api_provider_name) == string_member(value@, "api_provider_name"@)
        }),
        !(names_api_key_mode(value@) && api_key_in(value@) is Some) ==> match import_candidate(value@) {
            Some(c) => r matches Some(JsonValueImport::Login(x)) && candidate_view(x) == c,
            None => match stored {
                Some(a) => r matches Some(JsonValueImport::Stored(b)) && b == a,
                None => r is None,
            },
        },
{
    if let Some(import) = api_key_import_from_value(value) {
        return Some(JsonValueImport::ApiKey(import));
    }
    if let Some(candidate) = extract_codex_import_candidate_from_value(value) {
        return Some(JsonValueImport::Login(candidate));
    }
    match stored {
        Some(a) => Some(JsonValueImport::Stored(a)),
        None => None,
    }
}

} // verus!
