//! Codex accounts: the account model, API key accounts and their providers,
//! token bookkeeping, refresh errors, identities read from tokens, and the
//! quota rules behind alerts and automatic switching.
use vstd::prelude::*;
use crate::external::{
    base64_url_decode, decode_base64_url, json_as_integer_text, json_as_string, json_get_member,
    json_integer, json_member, json_string, md5_digest, md5_of_text, now_unix_seconds, parse_url,
    parse_json_bytes, json_from_bytes, text_from_utf8, url_parse, json_array_len, json_array_length,
    json_item, json_get_item, json_bool, json_as_bool,
};
use crate::strings::{clone_opt_string, opt_str, strs};
use crate::keyed::{keys_unique, to_map};
use crate::text::{
    contains, eq_ignore_case, hex_text, split_char, is_ascii_alnum, is_ascii_alpha, lower, lower_char, nat_digits, starts_with,
    trim,
};

verus! {

broadcast use vstd::string::group_string_axioms;

// ---------------------------------------------------------------------------
// The account model
// ---------------------------------------------------------------------------

/// How an API key account reaches its provider.
#[derive(Clone, Copy, PartialEq, Eq, Structural, Debug)]
pub enum CodexApiProviderMode {
    OpenaiBuiltin,
    Custom,
}

/// How an account authenticates.
#[derive(Clone, Copy, PartialEq, Eq, Structural, Debug)]
pub enum CodexAuthMode {
    Oauth,
    Apikey,
}

/// The tokens of an OAuth account.
#[derive(Debug)]
pub struct CodexTokens {
    pub id_token: String,
    pub access_token: String,
    pub refresh_token: Option<String>,
}

/// The tokens of a Codex `auth.json` file.
#[derive(Debug)]
pub struct CodexAuthTokens {
    pub id_token: String,
    pub access_token: String,
    pub refresh_token: Option<String>,
    pub account_id: Option<String>,
}

/// The quota windows last read for an account.
#[derive(Debug, Clone, Copy)]
pub struct CodexQuota {
    pub hourly_percentage: i32,
    pub weekly_percentage: i32,
    pub hourly_window_minutes: Option<i64>,
    pub weekly_window_minutes: Option<i64>,
    pub hourly_window_present: Option<bool>,
    pub weekly_window_present: Option<bool>,
}

/// A Codex account as the library reads and changes it.
#[derive(Debug)]
pub struct CodexAccount {
    pub id: String,
    pub email: String,
    pub auth_mode: CodexAuthMode,
    pub openai_api_key: Option<String>,
    pub api_base_url: Option<String>,
    pub api_provider_mode: CodexApiProviderMode,
    pub api_provider_id: Option<String>,
    pub api_provider_name: Option<String>,
    pub account_name: Option<String>,
    pub plan_type: Option<String>,
    pub auth_file_plan_type: Option<String>,
    pub tokens: CodexTokens,
    pub user_id: Option<String>,
    pub subscription_active_until: Option<String>,
    pub account_id: Option<String>,
    pub organization_id: Option<String>,
    pub account_structure: Option<String>,
    pub quota: Option<CodexQuota>,
    pub quota_error: Option<String>,
    pub tags: Option<Vec<String>>,
    pub account_note: Option<String>,
    pub bound_oauth_account_id: Option<String>,
    pub token_generation: u64,
    pub token_updated_at: Option<i64>,
    pub token_source_mode: String,
    pub requires_reauth: bool,
    pub reauth_reason: Option<String>,
    pub created_at: i64,
    pub last_used: i64,
}

/// What the account index keeps of an account.
#[derive(Debug)]
pub struct CodexAccountSummary {
    pub id: String,
    pub email: String,
    pub plan_type: Option<String>,
    pub subscription_active_until: Option<String>,
    pub created_at: i64,
    pub last_used: i64,
}

/// The index of accounts and the current one.
#[derive(Debug)]
pub struct CodexAccountIndex {
    pub accounts: Vec<CodexAccountSummary>,
    pub current_account_id: Option<String>,
}

/// The provider an API key account uses.
#[derive(Debug)]
pub struct ApiProviderConfig {
    pub mode: CodexApiProviderMode,
    pub base_url: Option<String>,
    pub provider_id: Option<String>,
    pub provider_name: Option<String>,
}

/// The content of a provider configuration.
pub open spec fn provider_view(c: ApiProviderConfig) -> (
    CodexApiProviderMode,
    Option<Seq<char>>,
    Option<Seq<char>>,
    Option<Seq<char>>,
) {
    (c.mode, opt_str(c.base_url), opt_str(c.provider_id), opt_str(c.provider_name))
}

// ---------------------------------------------------------------------------
// Optional texts
// ---------------------------------------------------------------------------

/// A text trimmed, or nothing when it is blank.
pub open spec fn non_blank(s: Seq<char>) -> Option<Seq<char>> {
    if trim(s).len() == 0 {
        None
    } else {
        Some(trim(s))
    }
}

/// An optional text trimmed, or nothing when it is absent or blank.
pub open spec fn normalized_opt(o: Option<Seq<char>>) -> Option<Seq<char>> {
    match o {
        Some(s) => non_blank(s),
        None => None,
    }
}

/// The first of two optional values that is present.
pub open spec fn first_some<T>(a: Option<T>, b: Option<T>) -> Option<T> {
    match a {
        Some(x) => Some(x),
        None => b,
    }
}

/// `normalize_optional_ref`: the trimmed text, or nothing when blank.
pub fn normalize_optional_ref(value: Option<&str>) -> (r: Option<String>)
    ensures
        opt_str(r) == normalized_opt(
            match value {
                Some(v) => Some(v@),
                None => None,
            },
        ),
{
    match value {
        Some(raw) => {
            let t = crate::text::trimmed(raw);
            if t.len() == 0 {
                None
            } else {
                Some(crate::text::string_of(&t))
            }
        },
        None => None,
    }
}

/// `normalize_optional_value`: the trimmed text, or nothing when blank.
pub fn normalize_optional_value(value: Option<String>) -> (r: Option<String>)
    ensures
        opt_str(r) == normalized_opt(opt_str(value)),
{
    match value {
        Some(raw) => normalize_optional_ref(Some(raw.as_str())),
        None => None,
    }
}

// ---------------------------------------------------------------------------
// API keys and providers
// ---------------------------------------------------------------------------

/// `is_auth_mode_apikey`: the auth mode text says "apikey", whatever its case.
pub fn is_auth_mode_apikey(value: Option<&str>) -> (r: bool)
    ensures
        r == match value {
            Some(v) => lower(trim(v@)) == "apikey"@,
            None => false,
        },
{
    match value {
        Some(v) => {
            let l = crate::text::lower_chars(&crate::text::trimmed(v));
            crate::text::chars_eq_str(&l, "apikey")
        },
        None => false,
    }
}

/// `normalize_api_key`: the trimmed key, or nothing when blank.
pub fn normalize_api_key(raw: &str) -> (r: Option<String>)
    ensures
        opt_str(r) == non_blank(raw@),
{
    normalize_optional_ref(Some(raw))
}

/// `s` without the characters `c` at its end.
pub open spec fn trim_end_char(s: Seq<char>, c: char) -> Seq<char>
    decreases s.len(),
{
    if s.len() > 0 && s.last() == c {
        trim_end_char(s.drop_last(), c)
    } else {
        s
    }
}

/// `trim_end_matches(c)`.
fn trim_end_char_exec(v: &[char], c: char) -> (r: Vec<char>)
    ensures
        r@ == trim_end_char(v@, c),
{
    let mut j: usize = v.len();
    assert(v@.take(v.len() as int) =~= v@);
    while j > 0 && v[j - 1] == c
        invariant
            j <= v.len(),
            trim_end_char(v@, c) == trim_end_char(v@.take(j as int), c),
        decreases j,
    {
        assert(v@.take(j as int).drop_last() =~= v@.take(j - 1));
        j -= 1;
    }
    crate::text::slice_range(v, 0, j)
}

/// What `normalize_api_base_url` gives: the trimmed URL without trailing
/// slashes, or nothing when absent or blank.
pub open spec fn normalized_base_url(raw: Option<Seq<char>>) -> Option<Seq<char>> {
    match raw {
        Some(r) => if trim(r).len() == 0 {
            None
        } else {
            Some(trim_end_char(trim(r), '/'))
        },
        None => None,
    }
}

/// `normalize_api_base_url`.
pub fn normalize_api_base_url(raw: Option<&str>) -> (r: Option<String>)
    ensures
        opt_str(r) == normalized_base_url(
            match raw {
                Some(v) => Some(v@),
                None => None,
            },
        ),
{
    match raw {
        Some(v) => {
            let t = crate::text::trimmed(v);
            if t.len() == 0 {
                None
            } else {
                Some(crate::text::string_of(&trim_end_char_exec(&t, '/')))
            }
        },
        None => None,
    }
}

/// The official OpenAI API address.
pub open spec fn default_openai_base_url() -> Seq<char> {
    "https://api.openai.com/v1"@
}

/// `is_default_openai_base_url`: the official address, whatever its case.
pub fn is_default_openai_base_url(raw: &str) -> (r: bool)
    ensures
        r == eq_ignore_case(trim(raw@), default_openai_base_url()),
{
    let t = crate::text::string_of(&crate::text::trimmed(raw));
    crate::text::eq_ignore_case_exec(t.as_str(), "https://api.openai.com/v1")
}

/// The port as a URL writes it after the host, or nothing.
pub open spec fn port_text(port: Option<u16>) -> Seq<char> {
    match port {
        Some(n) => seq![':'] + nat_digits(n as nat),
        None => Seq::empty(),
    }
}

/// What `normalize_api_base_url_for_match` gives: scheme, host, port and
/// path of an http(s) URL, lower-cased, or nothing.
pub open spec fn base_url_for_match(raw: Option<Seq<char>>) -> Option<Seq<char>> {
    match raw {
        None => None,
        Some(r) => match url_parse(trim(r)) {
            Err(_) => None,
            Ok(p) => if (p.0 == "http"@ || p.0 == "https"@) && p.1 is Some {
                Some(
                    lower(p.0 + "://"@ + p.1.unwrap() + port_text(p.2) + trim_end_char(p.3, '/')),
                )
            } else {
                None
            },
        },
    }
}

/// `normalize_api_base_url_for_match`.
pub fn normalize_api_base_url_for_match(raw: Option<&str>) -> (r: Option<String>)
    ensures
        opt_str(r) == base_url_for_match(
            match raw {
                Some(v) => Some(v@),
                None => None,
            },
        ),
{
    let raw = match raw {
        Some(v) => v,
        None => {
            return None;
        },
    };
    let t = crate::text::string_of(&crate::text::trimmed(raw));
    let parts = match parse_url(t.as_str()) {
        Ok(p) => p,
        Err(_) => {
            return None;
        },
    };
    if !(crate::text::str_eq(parts.scheme.as_str(), "http") || crate::text::str_eq(parts.scheme.as_str(), "https")) {
        return None;
    }
    let host = match &parts.host {
        Some(h) => h,
        None => {
            return None;
        },
    };
    let port = match parts.port {
        Some(n) => {
            let digits = crate::text::u64_text(n as u64);
            let r = crate::text::concat(":", digits.as_str());
            proof {
                reveal_strlit(":");
            }
            r
        },
        None => String::new(),
    };
    let path = crate::text::string_of(&trim_end_char_exec(&crate::text::chars_of(parts.path.as_str()), '/'));
    let a = crate::text::concat(parts.scheme.as_str(), "://");
    let b = crate::text::concat(a.as_str(), host.as_str());
    let c = crate::text::concat(b.as_str(), port.as_str());
    let d = crate::text::concat(c.as_str(), path.as_str());
    Some(crate::text::string_of(&crate::text::lower_chars(&crate::text::chars_of(d.as_str()))))
}

/// The address of the Cockpit API provider.
pub open spec fn cockpit_api_base_url() -> Seq<char> {
    "https://chongcodex.cn/v1"@
}

/// `is_cockpit_api_base_url`: the URL names the Cockpit API provider.
pub fn is_cockpit_api_base_url(raw: Option<&str>) -> (r: bool)
    ensures
        r == match (
            base_url_for_match(
                match raw {
                    Some(v) => Some(v@),
                    None => None,
                },
            ),
            base_url_for_match(Some(cockpit_api_base_url())),
        ) {
            (Some(a), Some(e)) => a == e,
            _ => false,
        },
{
    let actual = match normalize_api_base_url_for_match(raw) {
        Some(a) => a,
        None => {
            return false;
        },
    };
    let expected = match normalize_api_base_url_for_match(Some("https://chongcodex.cn/v1")) {
        Some(e) => e,
        None => {
            return false;
        },
    };
    crate::text::str_eq(actual.as_str(), expected.as_str())
}

/// `normalize_api_provider_name`: the trimmed name, or nothing when blank.
pub fn normalize_api_provider_name(raw: Option<&str>) -> (r: Option<String>)
    ensures
        opt_str(r) == normalized_opt(
            match raw {
                Some(v) => Some(v@),
                None => None,
            },
        ),
{
    normalize_optional_ref(raw)
}

/// One step of provider id sanitising: the text so far and whether it ends
/// in a separator.
pub open spec fn sanitize_step(acc: (Seq<char>, bool), ch: char) -> (Seq<char>, bool) {
    if is_ascii_alnum(ch) {
        (acc.0.push(lower_char(ch)), false)
    } else if acc.1 {
        acc
    } else if ch == '-' || ch == '_' {
        (acc.0.push(ch), true)
    } else {
        (acc.0.push('_'), true)
    }
}

/// Sanitising the characters of `s` in order: letters and digits lower-cased,
/// every run of other characters kept as one separator (`-` and `_` as
/// themselves, others as `_`).
pub open spec fn sanitize_fold(s: Seq<char>) -> (Seq<char>, bool)
    decreases s.len(),
{
    if s.len() == 0 {
        (Seq::empty(), false)
    } else {
        sanitize_step(sanitize_fold(s.drop_last()), s.last())
    }
}

/// A separator of provider ids.
pub open spec fn is_id_sep(c: char) -> bool {
    c == '_' || c == '-'
}

/// `s` without separators at its end.
pub open spec fn strip_seps_end(s: Seq<char>) -> Seq<char>
    decreases s.len(),
{
    if s.len() > 0 && is_id_sep(s.last()) {
        strip_seps_end(s.drop_last())
    } else {
        s
    }
}

/// `s` without separators at its start.
pub open spec fn strip_seps_start(s: Seq<char>) -> Seq<char>
    decreases s.len(),
{
    if s.len() > 0 && is_id_sep(s[0]) {
        strip_seps_start(s.drop_first())
    } else {
        s
    }
}

/// What `sanitize_api_provider_id` gives: the sanitised, separator-trimmed
/// id, prefixed with `provider_` when it does not start with a letter or
/// is `openai`; nothing when blank.
pub open spec fn sanitized_provider_id(raw: Seq<char>) -> Option<Seq<char>> {
    let t = trim(raw);
    if t.len() == 0 {
        None
    } else {
        let n = strip_seps_start(strip_seps_end(sanitize_fold(t).0));
        if n.len() == 0 {
            None
        } else if !is_ascii_alpha(n[0]) || n == "openai"@ {
            Some("provider_"@ + n)
        } else {
            Some(n)
        }
    }
}

/// `sanitize_api_provider_id`.
pub fn sanitize_api_provider_id(raw: &str) -> (r: Option<String>)
    ensures
        opt_str(r) == sanitized_provider_id(raw@),
{
    let t = crate::text::trimmed(raw);
    if t.len() == 0 {
        return None;
    }
    let mut out: Vec<char> = Vec::new();
    let mut prev_separator = false;
    let mut i: usize = 0;
    assert(t@.take(0) =~= Seq::<char>::empty());
    while i < t.len()
        invariant
            i <= t@.len(),
            (out@, prev_separator) == sanitize_fold(t@.take(i as int)),
        decreases t@.len() - i,
    {
        assert(t@.take(i + 1).drop_last() =~= t@.take(i as int));
        let ch = t[i];
        if ('a' <= ch && ch <= 'z') || ('A' <= ch && ch <= 'Z') || ('0' <= ch && ch <= '9') {
            prev_separator = false;
            out.push(crate::text::lower_char_exec(ch));
        } else if prev_separator {
        } else if ch == '-' || ch == '_' {
            prev_separator = true;
            out.push(ch);
        } else {
            prev_separator = true;
            out.push('_');
        }
        i += 1;
    }
    assert(t@.take(t@.len() as int) =~= t@);
    let mut j: usize = out.len();
    assert(out@.take(out@.len() as int) =~= out@);
    while j > 0 && (out[j - 1] == '_' || out[j - 1] == '-')
        invariant
            j <= out@.len(),
            strip_seps_end(out@) == strip_seps_end(out@.take(j as int)),
        decreases j,
    {
        assert(out@.take(j as int).drop_last() =~= out@.take(j - 1));
        j -= 1;
    }
    let ghost ended = out@.take(j as int);
    let mut k: usize = 0;
    assert(ended.skip(0) =~= ended);
    while k < j && (out[k] == '_' || out[k] == '-')
        invariant
            k <= j <= out@.len(),
            ended == out@.take(j as int),
            strip_seps_start(ended) == strip_seps_start(ended.skip(k as int)),
        decreases j - k,
    {
        assert(ended.skip(k as int).drop_first() =~= ended.skip(k + 1));
        k += 1;
    }
    let normalized = crate::text::slice_range(&out, k, j);
    assert(normalized@ =~= ended.skip(k as int));
    if normalized.len() == 0 {
        return None;
    }
    let first = normalized[0];
    let starts_alpha = ('a' <= first && first <= 'z') || ('A' <= first && first <= 'Z');
    if !starts_alpha || crate::text::chars_eq_str(&normalized, "openai") {
        let s = crate::text::string_of(&normalized);
        return Some(crate::text::concat("provider_", s.as_str()));
    }
    Some(crate::text::string_of(&normalized))
}

/// `s` without the leading copies of `p`.
pub open spec fn strip_prefix_repeated(s: Seq<char>, p: Seq<char>) -> Seq<char>
    decreases s.len(),
{
    if p.len() > 0 && starts_with(s, p) {
        strip_prefix_repeated(s.skip(p.len() as int), p)
    } else {
        s
    }
}

/// What `derive_provider_name_from_base_url` gives: the URL's host without
/// leading `www.`, or nothing.
pub open spec fn provider_name_from_url(base_url: Seq<char>) -> Option<Seq<char>> {
    match url_parse(base_url) {
        Ok(p) => match p.1 {
            Some(h) => {
                let name = strip_prefix_repeated(trim(h), "www."@);
                if name.len() == 0 {
                    None
                } else {
                    Some(name)
                }
            },
            None => None,
        },
        Err(_) => None,
    }
}

/// `derive_provider_name_from_base_url`.
pub fn derive_provider_name_from_base_url(base_url: &str) -> (r: Option<String>)
    ensures
        opt_str(r) == provider_name_from_url(base_url@),
{
    let parts = match parse_url(base_url) {
        Ok(p) => p,
        Err(_) => {
            return None;
        },
    };
    let host = match &parts.host {
        Some(h) => h,
        None => {
            return None;
        },
    };
    let t = crate::text::trimmed(host.as_str());
    let www = crate::text::chars_of("www.");
    proof {
        reveal_strlit("www.");
    }
    let mut i: usize = 0;
    assert(t@.skip(0) =~= t@);
    while 4 <= t.len() - i && crate::text::starts_with_chars(&crate::text::slice_range(&t, i, t.len()), &www)
        invariant
            i <= t@.len(),
            www@ == "www."@,
            www@.len() == 4,
            strip_prefix_repeated(trim(host@), "www."@) == strip_prefix_repeated(t@.skip(i as int), "www."@),
            t@ == trim(host@),
        decreases t@.len() - i,
    {
        assert(t@.skip(i as int).skip(4) =~= t@.skip(i + 4));
        i += 4;
    }
    proof {
        if t@.len() - i < 4 {
            assert(!starts_with(t@.skip(i as int), "www."@));
        }
    }
    let name = crate::text::slice_range(&t, i, t.len());
    assert(name@ =~= t@.skip(i as int));
    if name.len() == 0 {
        None
    } else {
        Some(crate::text::string_of(&name))
    }
}

/// What `derive_api_provider_id` gives: the sanitised explicit id, else the
/// sanitised name, else the sanitised host of the base URL.
pub open spec fn derived_provider_id(
    base_url: Seq<char>,
    provider_id: Option<Seq<char>>,
    provider_name: Option<Seq<char>>,
) -> Option<Seq<char>> {
    first_some(
        sanitized_provider_id(
            match provider_id {
                Some(s) => s,
                None => Seq::empty(),
            },
        ),
        first_some(
            sanitized_provider_id(
                match provider_name {
                    Some(s) => s,
                    None => Seq::empty(),
                },
            ),
            match provider_name_from_url(base_url) {
                Some(n) => sanitized_provider_id(n),
                None => None,
            },
        ),
    )
}

/// `derive_api_provider_id`.
pub fn derive_api_provider_id(
    base_url: &str,
    api_provider_id: Option<&str>,
    api_provider_name: Option<&str>,
) -> (r: Option<String>)
    ensures
        opt_str(r) == derived_provider_id(
            base_url@,
            match api_provider_id {
                Some(v) => Some(v@),
                None => None,
            },
            match api_provider_name {
                Some(v) => Some(v@),
                None => None,
            },
        ),
{
    proof {
        reveal_strlit("");
    }
    let from_id = sanitize_api_provider_id(
        match api_provider_id {
            Some(v) => v,
            None => "",
        },
    );
    if from_id.is_some() {
        return from_id;
    }
    let from_name = sanitize_api_provider_id(
        match api_provider_name {
            Some(v) => v,
            None => "",
        },
    );
    if from_name.is_some() {
        return from_name;
    }
    match derive_provider_name_from_base_url(base_url) {
        Some(n) => sanitize_api_provider_id(n.as_str()),
        None => None,
    }
}

/// What `resolve_api_provider_config` gives. Without a mode, a base URL other
/// than the official one means a custom provider. A built-in provider keeps
/// only a base URL other than the official one; a custom provider needs a
/// base URL and takes its name and id from the arguments or the URL's host.
pub open spec fn resolved_provider(
    api_base_url: Option<Seq<char>>,
    api_provider_mode: Option<CodexApiProviderMode>,
    api_provider_id: Option<Seq<char>>,
    api_provider_name: Option<Seq<char>>,
) -> Result<(CodexApiProviderMode, Option<Seq<char>>, Option<Seq<char>>, Option<Seq<char>>), Seq<char>> {
    let nb = normalized_base_url(api_base_url);
    let mode = match api_provider_mode {
        Some(m) => m,
        None => match nb {
            None => CodexApiProviderMode::OpenaiBuiltin,
            Some(b) => if eq_ignore_case(trim(b), default_openai_base_url()) {
                CodexApiProviderMode::OpenaiBuiltin
            } else {
                CodexApiProviderMode::Custom
            },
        },
    };
    match mode {
        CodexApiProviderMode::OpenaiBuiltin => Ok(
            (
                mode,
                match nb {
                    Some(b) => if eq_ignore_case(trim(b), default_openai_base_url()) {
                        None
                    } else {
                        Some(b)
                    },
                    None => None,
                },
                None,
                None,
            ),
        ),
        CodexApiProviderMode::Custom => match nb {
            None => Err("自定义供应商缺少 Base URL"@),
            Some(b) => {
                let name = first_some(normalized_opt(api_provider_name), provider_name_from_url(b));
                Ok((mode, Some(b), derived_provider_id(b, api_provider_id, name), name))
            },
        },
    }
}

/// The view of an optional text argument.
pub open spec fn opt_ref(o: Option<&str>) -> Option<Seq<char>> {
    match o {
        Some(v) => Some(v@),
        None => None,
    }
}

/// `resolve_api_provider_config`.
pub fn resolve_api_provider_config(
    api_base_url: Option<&str>,
    api_provider_mode: Option<CodexApiProviderMode>,
    api_provider_id: Option<&str>,
    api_provider_name: Option<&str>,
) -> (r: Result<ApiProviderConfig, String>)
    ensures
        match resolved_provider(opt_ref(api_base_url), api_provider_mode, opt_ref(api_provider_id), opt_ref(api_provider_name)) {
            Ok(v) => r matches Ok(c) && provider_view(c) == v,
            Err(e) => r matches Err(m) && m@ == e,
        },
{
    let normalized = normalize_api_base_url(api_base_url);
    let mode = match api_provider_mode {
        Some(m) => m,
        None => match &normalized {
            None => CodexApiProviderMode::OpenaiBuiltin,
            Some(b) => if is_default_openai_base_url(b.as_str()) {
                CodexApiProviderMode::OpenaiBuiltin
            } else {
                CodexApiProviderMode::Custom
            },
        },
    };
    match mode {
        CodexApiProviderMode::OpenaiBuiltin => {
            let base_url = match normalized {
                Some(b) => if is_default_openai_base_url(b.as_str()) {
                    None
                } else {
                    Some(b)
                },
                None => None,
            };
            Ok(ApiProviderConfig { mode, base_url, provider_id: None, provider_name: None })
        },
        CodexApiProviderMode::Custom => {
            let base_url = match normalized {
                Some(b) => b,
                None => {
                    return Err("自定义供应商缺少 Base URL".to_string());
                },
            };
            let provider_name = match normalize_api_provider_name(api_provider_name) {
                Some(n) => Some(n),
                None => derive_provider_name_from_base_url(base_url.as_str()),
            };
            let provider_id = derive_api_provider_id(
                base_url.as_str(),
                api_provider_id,
                match &provider_name {
                    Some(n) => Some(n.as_str()),
                    None => None,
                },
            );
            Ok(ApiProviderConfig { mode, base_url: Some(base_url), provider_id, provider_name })
        },
    }
}

/// `infer_api_provider_config`: the resolved provider, or the built-in one
/// when it cannot be resolved.
pub fn infer_api_provider_config(
    api_base_url: Option<&str>,
    api_provider_mode: Option<CodexApiProviderMode>,
    api_provider_id: Option<&str>,
    api_provider_name: Option<&str>,
) -> (r: ApiProviderConfig)
    ensures
        provider_view(r) == match resolved_provider(
            opt_ref(api_base_url),
            api_provider_mode,
            opt_ref(api_provider_id),
            opt_ref(api_provider_name),
        ) {
            Ok(v) => v,
            Err(_) => (CodexApiProviderMode::OpenaiBuiltin, None, None, None),
        },
{
    match resolve_api_provider_config(api_base_url, api_provider_mode, api_provider_id, api_provider_name) {
        Ok(c) => c,
        Err(_) => ApiProviderConfig {
            mode: CodexApiProviderMode::OpenaiBuiltin,
            base_url: None,
            provider_id: None,
            provider_name: None,
        },
    }
}

/// What `is_http_like_url` says: an http(s) URL, or, when the text does not
/// parse, a text that starts like one.
pub open spec fn http_like(raw: Seq<char>) -> bool {
    let t = trim(raw);
    if t.len() == 0 {
        false
    } else {
        match url_parse(t) {
            Ok(p) => p.0 == "http"@ || p.0 == "https"@,
            Err(_) => starts_with(lower(t), "http://"@) || starts_with(lower(t), "https://"@),
        }
    }
}

/// `is_http_like_url`.
pub fn is_http_like_url(raw: &str) -> (r: bool)
    ensures
        r == http_like(raw@),
{
    let t = crate::text::trimmed(raw);
    if t.len() == 0 {
        return false;
    }
    let ts = crate::text::string_of(&t);
    match parse_url(ts.as_str()) {
        Ok(p) => crate::text::str_eq(p.scheme.as_str(), "http") || crate::text::str_eq(p.scheme.as_str(), "https"),
        Err(_) => {
            let l = crate::text::lower_chars(&t);
            crate::text::starts_with_chars(&l, &crate::text::chars_of("http://")) || crate::text::starts_with_chars(
                &l,
                &crate::text::chars_of("https://"),
            )
        },
    }
}

/// What `validate_api_key_credentials` gives: the trimmed key and base URL,
/// or the first complaint.
pub open spec fn checked_credentials(api_key: Seq<char>, api_base_url: Option<Seq<char>>) -> Result<
    (Seq<char>, Option<Seq<char>>),
    Seq<char>,
> {
    match non_blank(api_key) {
        None => Err("API Key 不能为空"@),
        Some(k) => if http_like(k) {
            Err("API Key 不能是 URL，请检查是否填反"@)
        } else {
            match normalized_base_url(api_base_url) {
                None => Ok((k, None)),
                Some(b) => match url_parse(b) {
                    Err(_) => Err("Base URL 格式无效，请输入完整的 http:// 或 https:// 地址"@),
                    Ok(p) => if !(p.0 == "http"@ || p.0 == "https"@) {
                        Err("Base URL 仅支持 http 或 https 协议"@)
                    } else if b == k {
                        Err("API Key 不能与 Base URL 相同"@)
                    } else {
                        Ok((k, Some(b)))
                    },
                },
            }
        },
    }
}

/// `validate_api_key_credentials`.
pub fn validate_api_key_credentials(api_key: &str, api_base_url: Option<&str>) -> (r: Result<
    (String, Option<String>),
    String,
>)
    ensures
        match checked_credentials(api_key@, opt_ref(api_base_url)) {
            Ok(v) => r matches Ok(p) && p.0@ == v.0 && opt_str(p.1) == v.1,
            Err(e) => r matches Err(m) && m@ == e,
        },
{
    let key = match normalize_api_key(api_key) {
        Some(k) => k,
        None => {
            return Err("API Key 不能为空".to_string());
        },
    };
    if is_http_like_url(key.as_str()) {
        return Err("API Key 不能是 URL，请检查是否填反".to_string());
    }
    let base = normalize_api_base_url(api_base_url);
    match &base {
        Some(b) => {
            let parts = match parse_url(b.as_str()) {
                Ok(p) => p,
                Err(_) => {
                    return Err("Base URL 格式无效，请输入完整的 http:// 或 https:// 地址".to_string());
                },
            };
            if !(crate::text::str_eq(parts.scheme.as_str(), "http") || crate::text::str_eq(
                parts.scheme.as_str(),
                "https",
            )) {
                return Err("Base URL 仅支持 http 或 https 协议".to_string());
            }
            if crate::text::str_eq(b.as_str(), key.as_str()) {
                return Err("API Key 不能与 Base URL 相同".to_string());
            }
        },
        None => {},
    }
    Ok((key, base))
}

// ---------------------------------------------------------------------------
// Identifiers derived from keys and tokens
// ---------------------------------------------------------------------------

/// `build_api_key_email`: `api-key-` and the first 8 hex digits of the key's MD5.
pub fn build_api_key_email(api_key: &str) -> (r: String)
    ensures
        r@ == "api-key-"@ + hex_text(md5_digest(api_key@)).take(8),
{
    let digest = md5_of_text(api_key);
    let hash = crate::text::chars_of(crate::text::hex_encode(digest.as_slice()).as_str());
    proof {
        crate::text::lemma_hex_text_len(digest@);
    }
    let short = crate::text::string_of(&crate::text::slice_range(&hash, 0, 8));
    assert(hash@.subrange(0, 8) =~= hash@.take(8));
    crate::text::concat("api-key-", short.as_str())
}

/// `build_api_key_account_id`: `codex_apikey_` and the key's MD5 in hex.
pub fn build_api_key_account_id(api_key: &str) -> (r: String)
    ensures
        r@ == "codex_apikey_"@ + hex_text(md5_digest(api_key@)),
{
    let digest = md5_of_text(api_key);
    let hash = crate::text::hex_encode(digest.as_slice());
    crate::text::concat("codex_apikey_", hash.as_str())
}

/// `access_token_fingerprint`: the first 12 hex digits of the token's MD5.
pub fn access_token_fingerprint(access_token: &str) -> (r: String)
    ensures
        r@ == hex_text(md5_digest(access_token@)).take(12),
{
    let digest = md5_of_text(access_token);
    let hash = crate::text::chars_of(crate::text::hex_encode(digest.as_slice()).as_str());
    proof {
        crate::text::lemma_hex_text_len(digest@);
    }
    assert(hash@.subrange(0, 12) =~= hash@.take(12));
    crate::text::string_of(&crate::text::slice_range(&hash, 0, 12))
}

/// The text whose MD5 names an OAuth account: the trimmed email, then `|`
/// and each of the account and organization ids that is present.
pub open spec fn storage_seed(email: Seq<char>, account_id: Option<Seq<char>>, organization_id: Option<Seq<char>>) -> Seq<
    char,
> {
    let with_account = match normalized_opt(account_id) {
        Some(id) => trim(email) + seq!['|'] + id,
        None => trim(email),
    };
    match normalized_opt(organization_id) {
        Some(org) => with_account + seq!['|'] + org,
        None => with_account,
    }
}

/// `build_account_storage_id`: `codex_` and the MD5 of the storage seed.
pub fn build_account_storage_id(email: &str, account_id: Option<&str>, organization_id: Option<&str>) -> (r: String)
    ensures
        r@ == "codex_"@ + hex_text(md5_digest(storage_seed(email@, opt_ref(account_id), opt_ref(organization_id)))),
{
    let mut seed = crate::text::string_of(&crate::text::trimmed(email));
    let ghost with_account = match normalized_opt(opt_ref(account_id)) {
        Some(id) => trim(email@) + seq!['|'] + id,
        None => trim(email@),
    };
    match normalize_optional_ref(account_id) {
        Some(id) => {
            crate::text::push_char(&mut seed, '|');
            seed = crate::text::concat(seed.as_str(), id.as_str());
            assert(seed@ =~= with_account);
        },
        None => {},
    }
    assert(seed@ == with_account);
    match normalize_optional_ref(organization_id) {
        Some(org) => {
            crate::text::push_char(&mut seed, '|');
            seed = crate::text::concat(seed.as_str(), org.as_str());
            assert(seed@ =~= with_account + seq!['|'] + org@);
        },
        None => {},
    }
    assert(seed@ == storage_seed(email@, opt_ref(account_id), opt_ref(organization_id)));
    let digest = md5_of_text(seed.as_str());
    let hash = crate::text::hex_encode(digest.as_slice());
    crate::text::concat("codex_", hash.as_str())
}

// ---------------------------------------------------------------------------
// API key accounts
// ---------------------------------------------------------------------------

/// Whether a provider is the Cockpit API: by its id, whatever the case, or
/// by its base URL.
pub open spec fn is_cockpit_provider(c: (CodexApiProviderMode, Option<Seq<char>>, Option<Seq<char>>, Option<Seq<char>>)) -> bool {
    (match c.2 {
        Some(id) => eq_ignore_case(id, "cockpit_api"@),
        None => false,
    }) || (match (base_url_for_match(c.1), base_url_for_match(Some(cockpit_api_base_url()))) {
        (Some(a), Some(e)) => a == e,
        _ => false,
    })
}

/// `b` is `a` with only the fields of an API key login (auth mode, key,
/// provider, email, name, plan, tokens, OAuth identity, quota) and the
/// last use changed.
pub open spec fn api_key_fields_only(b: CodexAccount, a: CodexAccount) -> bool {
    b == (CodexAccount {
        auth_mode: b.auth_mode,
        openai_api_key: b.openai_api_key,
        api_base_url: b.api_base_url,
        api_provider_mode: b.api_provider_mode,
        api_provider_id: b.api_provider_id,
        api_provider_name: b.api_provider_name,
        email: b.email,
        account_name: b.account_name,
        plan_type: b.plan_type,
        tokens: b.tokens,
        user_id: b.user_id,
        subscription_active_until: b.subscription_active_until,
        account_id: b.account_id,
        organization_id: b.organization_id,
        account_structure: b.account_structure,
        quota: b.quota,
        quota_error: b.quota_error,
        last_used: b.last_used,
        ..a
    })
}

/// The fields `apply_api_key_fields` gives account `b` from account `a`,
/// for the key and the provider `p` (mode, base URL, id, name): the key,
/// the provider, the derived email and plan, the default name for the
/// Cockpit API, and no OAuth identity, tokens or quota; every other field
/// but the last use is `a`'s.
pub open spec fn api_key_fields_set(
    b: CodexAccount,
    a: CodexAccount,
    api_key: Seq<char>,
    p: (CodexApiProviderMode, Option<Seq<char>>, Option<Seq<char>>, Option<Seq<char>>),
) -> bool {
    &&& b.auth_mode == CodexAuthMode::Apikey
    &&& opt_str(b.openai_api_key) == Some(api_key)
    &&& (b.api_provider_mode, opt_str(b.api_base_url), opt_str(b.api_provider_id), opt_str(b.api_provider_name)) == p
    &&& b.email@ == "api-key-"@ + hex_text(md5_digest(api_key)).take(8)
    &&& opt_str(b.account_name) == if is_cockpit_provider(p) && normalized_opt(opt_str(a.account_name)) is None {
        Some("Codex API"@)
    } else {
        opt_str(a.account_name)
    }
    &&& opt_str(b.plan_type) == Some(
        if is_cockpit_provider(p) {
            "Cockpit Api"@
        } else {
            "API_KEY"@
        },
    )
    &&& b.tokens.id_token@ == Seq::<char>::empty()
    &&& b.tokens.access_token@ == Seq::<char>::empty()
    &&& b.tokens.refresh_token is None
    &&& b.user_id is None
    &&& b.subscription_active_until is None
    &&& b.account_id is None
    &&& b.organization_id is None
    &&& b.account_structure is None
    &&& b.quota is None
    &&& b.quota_error is None
    &&& api_key_fields_only(b, a)
}

/// `apply_api_key_fields`: turns the account into an API key account of
/// the provider: key, provider, derived email and plan, default name for
/// the Cockpit API, and no OAuth identity, tokens or quota.
pub fn apply_api_key_fields(account: &mut CodexAccount, api_key: &str, provider_config: ApiProviderConfig)
    ensures
        final(account).auth_mode == CodexAuthMode::Apikey,
        opt_str(final(account).openai_api_key) == Some(api_key@),
        opt_str(final(account).api_base_url) == opt_str(provider_config.base_url),
        final(account).api_provider_mode == provider_config.mode,
        opt_str(final(account).api_provider_id) == opt_str(provider_config.provider_id),
        opt_str(final(account).api_provider_name) == opt_str(provider_config.provider_name),
        final(account).email@ == "api-key-"@ + hex_text(md5_digest(api_key@)).take(8),
        opt_str(final(account).account_name) == if is_cockpit_provider(provider_view(provider_config))
            && normalized_opt(opt_str(old(account).account_name)) is None {
            Some("Codex API"@)
        } else {
            opt_str(old(account).account_name)
        },
        opt_str(final(account).plan_type) == Some(
            if is_cockpit_provider(provider_view(provider_config)) {
                "Cockpit Api"@
            } else {
                "API_KEY"@
            },
        ),
        final(account).tokens.id_token@ == Seq::<char>::empty(),
        final(account).tokens.access_token@ == Seq::<char>::empty(),
        final(account).tokens.refresh_token is None,
        final(account).user_id is None,
        final(account).subscription_active_until is None,
        final(account).account_id is None,
        final(account).organization_id is None,
        final(account).account_structure is None,
        final(account).quota is None,
        final(account).quota_error is None,
        final(account).id == old(account).id,
        final(account).tags == old(account).tags,
        final(account).account_note == old(account).account_note,
        final(account).created_at == old(account).created_at,
        final(account).last_used == old(account).last_used,
        api_key_fields_only(*final(account), *old(account)),
        api_key_fields_set(*final(account), *old(account), api_key@, provider_view(provider_config)),
{
    let by_id = match &provider_config.provider_id {
        Some(id) => crate::text::eq_ignore_case_exec(id.as_str(), "cockpit_api"),
        None => false,
    };
    let is_cockpit_api = by_id || is_cockpit_api_base_url(
        match &provider_config.base_url {
            Some(b) => Some(b.as_str()),
            None => None,
        },
    );
    let plan_type = if is_cockpit_api {
        "Cockpit Api"
    } else {
        "API_KEY"
    };
    account.auth_mode = CodexAuthMode::Apikey;
    account.openai_api_key = Some(api_key.to_string());
    account.api_base_url = provider_config.base_url;
    account.api_provider_mode = provider_config.mode;
    account.api_provider_id = provider_config.provider_id;
    account.api_provider_name = provider_config.provider_name;
    account.email = build_api_key_email(api_key);
    let has_name = match &account.account_name {
        Some(n) => normalize_optional_ref(Some(n.as_str())).is_some(),
        None => false,
    };
    if is_cockpit_api && !has_name {
        account.account_name = Some("Codex API".to_string());
    }
    account.plan_type = Some(plan_type.to_string());
    account.tokens = CodexTokens { id_token: String::new(), access_token: String::new(), refresh_token: None };
    account.user_id = None;
    account.subscription_active_until = None;
    account.account_id = None;
    account.organization_id = None;
    account.account_structure = None;
    account.quota = None;
    account.quota_error = None;
}

// ---------------------------------------------------------------------------
// Token bookkeeping and refresh errors
// ---------------------------------------------------------------------------

/// `mark_token_chain_updated` at time `now`: one more token generation
/// (saturating), stamped `now`, managed, and no reauthorisation pending.
pub fn mark_token_chain_updated_at(account: &mut CodexAccount, now: i64)
    ensures
        final(account).token_generation == if old(account).token_generation < u64::MAX {
            (old(account).token_generation + 1) as u64
        } else {
            u64::MAX
        },
        final(account).token_updated_at == Some(now),
        final(account).token_source_mode@ == "managed"@,
        !final(account).requires_reauth,
        final(account).reauth_reason is None,
        *final(account) == (CodexAccount {
            token_generation: final(account).token_generation,
            token_updated_at: Some(now),
            token_source_mode: final(account).token_source_mode,
            requires_reauth: false,
            reauth_reason: None,
            ..*old(account)
        }),
{
    account.token_generation = account.token_generation.saturating_add(1);
    account.token_updated_at = Some(now);
    account.token_source_mode = "managed".to_string();
    account.requires_reauth = false;
    account.reauth_reason = None;
}

/// `mark_token_chain_updated`: as `mark_token_chain_updated_at`, stamped
/// with the current time.
pub fn mark_token_chain_updated(account: &mut CodexAccount)
    ensures
        final(account).token_generation == if old(account).token_generation < u64::MAX {
            (old(account).token_generation + 1) as u64
        } else {
            u64::MAX
        },
        final(account).token_updated_at is Some,
        final(account).token_source_mode@ == "managed"@,
        !final(account).requires_reauth,
        final(account).reauth_reason is None,
        *final(account) == (CodexAccount {
            token_generation: final(account).token_generation,
            token_updated_at: final(account).token_updated_at,
            token_source_mode: final(account).token_source_mode,
            requires_reauth: false,
            reauth_reason: None,
            ..*old(account)
        }),
{
    let now = now_unix_seconds();
    mark_token_chain_updated_at(account, now);
}

/// The kinds of refresh failure the library tells apart.
#[derive(Clone, Copy, PartialEq, Eq, Structural, Debug)]
pub enum CodexRefreshErrorKind {
    RefreshTokenReused,
    RefreshTokenExpired,
    RefreshTokenInvalidated,
    InvalidGrant,
    UnsupportedCountryRegion,
    Other,
}

/// What `classify_refresh_error` gives: the first marker found in the
/// lower-cased message, in a fixed order.
pub open spec fn refresh_error_kind(message: Seq<char>) -> CodexRefreshErrorKind {
    let l = lower(message);
    if contains(l, "unsupported_country_region_territory"@) {
        CodexRefreshErrorKind::UnsupportedCountryRegion
    } else if contains(l, "refresh_token_reused"@) {
        CodexRefreshErrorKind::RefreshTokenReused
    } else if contains(l, "refresh_token_expired"@) {
        CodexRefreshErrorKind::RefreshTokenExpired
    } else if contains(l, "refresh_token_invalidated"@) || contains(l, "token_invalidated"@) || contains(
        l,
        "authentication token has been invalidated"@,
    ) {
        CodexRefreshErrorKind::RefreshTokenInvalidated
    } else if contains(l, "invalid_grant"@) || contains(l, "invalid refresh token"@) {
        CodexRefreshErrorKind::InvalidGrant
    } else {
        CodexRefreshErrorKind::Other
    }
}

/// `classify_refresh_error`.
pub fn classify_refresh_error(message: &str) -> (r: CodexRefreshErrorKind)
    ensures
        r == refresh_error_kind(message@),
{
    let l = crate::text::lower_chars(&crate::text::chars_of(message));
    if crate::text::contains_chars(&l, &crate::text::chars_of("unsupported_country_region_territory")) {
        return CodexRefreshErrorKind::UnsupportedCountryRegion;
    }
    if crate::text::contains_chars(&l, &crate::text::chars_of("refresh_token_reused")) {
        return CodexRefreshErrorKind::RefreshTokenReused;
    }
    if crate::text::contains_chars(&l, &crate::text::chars_of("refresh_token_expired")) {
        return CodexRefreshErrorKind::RefreshTokenExpired;
    }
    if crate::text::contains_chars(&l, &crate::text::chars_of("refresh_token_invalidated"))
        || crate::text::contains_chars(&l, &crate::text::chars_of("token_invalidated"))
        || crate::text::contains_chars(&l, &crate::text::chars_of("authentication token has been invalidated")) {
        return CodexRefreshErrorKind::RefreshTokenInvalidated;
    }
    if crate::text::contains_chars(&l, &crate::text::chars_of("invalid_grant")) || crate::text::contains_chars(
        &l,
        &crate::text::chars_of("invalid refresh token"),
    ) {
        return CodexRefreshErrorKind::InvalidGrant;
    }
    CodexRefreshErrorKind::Other
}

/// `is_reauth_required_refresh_error`: the refresh token is reused, expired,
/// invalidated or rejected, so only a new login helps.
pub fn is_reauth_required_refresh_error(message: &str) -> (r: bool)
    ensures
        r == match refresh_error_kind(message@) {
            CodexRefreshErrorKind::RefreshTokenReused => true,
            CodexRefreshErrorKind::RefreshTokenExpired => true,
            CodexRefreshErrorKind::RefreshTokenInvalidated => true,
            CodexRefreshErrorKind::InvalidGrant => true,
            _ => false,
        },
{
    match classify_refresh_error(message) {
        CodexRefreshErrorKind::RefreshTokenReused => true,
        CodexRefreshErrorKind::RefreshTokenExpired => true,
        CodexRefreshErrorKind::RefreshTokenInvalidated => true,
        CodexRefreshErrorKind::InvalidGrant => true,
        _ => false,
    }
}

/// The explanation shown to the user for each kind of refresh failure.
pub open spec fn refresh_error_explanation(kind: CodexRefreshErrorKind) -> Seq<char> {
    match kind {
        CodexRefreshErrorKind::RefreshTokenReused => "Codex 授权已失效：refresh_token 已被其它客户端或实例使用过。Codex 的 refresh_token 是轮换凭据，旧凭据再次刷新会被服务端拒绝。请重新登录，并避免官方 Codex、其它实例或外部工具同时刷新同一账号。原始错误: "@,
        CodexRefreshErrorKind::RefreshTokenExpired => "Codex 登录授权已过期，无法自动刷新。请重新登录 Codex 账号。原始错误: "@,
        CodexRefreshErrorKind::RefreshTokenInvalidated => "Codex 登录授权已被服务端撤销，无法自动刷新。请重新登录 Codex 账号。原始错误: "@,
        CodexRefreshErrorKind::InvalidGrant => "Codex 登录授权无效，无法自动刷新。请重新登录 Codex 账号。原始错误: "@,
        CodexRefreshErrorKind::UnsupportedCountryRegion => "当前网络地区不支持刷新 Codex 授权。OpenAI 授权服务拒绝了当前网络出口的刷新请求，请切换到支持的网络地区后重试。原始错误: "@,
        CodexRefreshErrorKind::Other => "Token 已过期且刷新失败: "@,
    }
}

/// `format_refresh_error_for_user`: the explanation for the kind of
/// failure, then the raw message.
pub fn format_refresh_error_for_user(raw: &str) -> (r: String)
    ensures
        r@ == refresh_error_explanation(refresh_error_kind(raw@)) + raw@,
{
    match classify_refresh_error(raw) {
        CodexRefreshErrorKind::RefreshTokenReused => crate::text::concat(
            "Codex 授权已失效：refresh_token 已被其它客户端或实例使用过。Codex 的 refresh_token 是轮换凭据，旧凭据再次刷新会被服务端拒绝。请重新登录，并避免官方 Codex、其它实例或外部工具同时刷新同一账号。原始错误: ",
            raw,
        ),
        CodexRefreshErrorKind::RefreshTokenExpired => crate::text::concat(
            "Codex 登录授权已过期，无法自动刷新。请重新登录 Codex 账号。原始错误: ",
            raw,
        ),
        CodexRefreshErrorKind::RefreshTokenInvalidated => crate::text::concat(
            "Codex 登录授权已被服务端撤销，无法自动刷新。请重新登录 Codex 账号。原始错误: ",
            raw,
        ),
        CodexRefreshErrorKind::InvalidGrant => crate::text::concat(
            "Codex 登录授权无效，无法自动刷新。请重新登录 Codex 账号。原始错误: ",
            raw,
        ),
        CodexRefreshErrorKind::UnsupportedCountryRegion => crate::text::concat(
            "当前网络地区不支持刷新 Codex 授权。OpenAI 授权服务拒绝了当前网络出口的刷新请求，请切换到支持的网络地区后重试。原始错误: ",
            raw,
        ),
        CodexRefreshErrorKind::Other => crate::text::concat("Token 已过期且刷新失败: ", raw),
    }
}

/// `mark_account_requires_reauth`: the account needs a new login, for `reason`.
pub fn mark_account_requires_reauth(account: &mut CodexAccount, reason: &str)
    ensures
        final(account).requires_reauth,
        opt_str(final(account).reauth_reason) == Some(reason@),
        final(account).id == old(account).id,
        final(account).tokens == old(account).tokens,
        *final(account) == (CodexAccount {
            requires_reauth: true,
            reauth_reason: final(account).reauth_reason,
            ..*old(account)
        }),
{
    account.requires_reauth = true;
    account.reauth_reason = Some(reason.to_string());
}

/// `is_missing_refresh_token_reason`: the reason says the refresh token is missing.
pub fn is_missing_refresh_token_reason(reason: &str) -> (r: bool)
    ensures
        r == contains(reason@, "缺少 refresh_token"@),
{
    crate::text::contains_str(reason, "缺少 refresh_token")
}

/// `account_has_refresh_token`: the account holds a non-blank refresh token.
pub fn account_has_refresh_token(account: &CodexAccount) -> (r: bool)
    ensures
        r == (normalized_opt(opt_str(account.tokens.refresh_token)) is Some),
{
    match &account.tokens.refresh_token {
        Some(t) => crate::text::trimmed(t.as_str()).len() > 0,
        None => false,
    }
}

/// `clear_stale_missing_refresh_token_reauth`: a pending reauthorisation
/// whose reason is a missing refresh token is cleared. Returns whether the
/// account changed (and is to be saved).
pub fn clear_stale_missing_refresh_token_reauth(account: &mut CodexAccount) -> (changed: bool)
    ensures
        changed == (old(account).requires_reauth && match opt_str(old(account).reauth_reason) {
            Some(r) => contains(r, "缺少 refresh_token"@),
            None => false,
        }),
        changed ==> !final(account).requires_reauth && final(account).reauth_reason is None,
        !changed ==> final(account).requires_reauth == old(account).requires_reauth && final(account).reauth_reason
            == old(account).reauth_reason,
        final(account).id == old(account).id,
        final(account).tokens == old(account).tokens,
        *final(account) == if changed {
            CodexAccount { requires_reauth: false, reauth_reason: None, ..*old(account) }
        } else {
            *old(account)
        },
{
    let missing = match &account.reauth_reason {
        Some(r) => is_missing_refresh_token_reason(r.as_str()),
        None => false,
    };
    if !account.requires_reauth || !missing {
        return false;
    }
    account.requires_reauth = false;
    account.reauth_reason = None;
    true
}

/// `retain_existing_refresh_token_if_missing`: new tokens keep their own
/// refresh token when it is not blank, else the existing account's.
pub fn retain_existing_refresh_token_if_missing(tokens: CodexTokens, existing: Option<&CodexAccount>) -> (r: CodexTokens)
    ensures
        r.id_token == tokens.id_token,
        r.access_token == tokens.access_token,
        opt_str(r.refresh_token) == first_some(
            normalized_opt(opt_str(tokens.refresh_token)),
            match existing {
                Some(a) => normalized_opt(opt_str(a.tokens.refresh_token)),
                None => None,
            },
        ),
{
    let CodexTokens { id_token, access_token, refresh_token } = tokens;
    let own = normalize_optional_value(refresh_token);
    let refresh_token = match own {
        Some(t) => Some(t),
        None => match existing {
            Some(a) => normalize_optional_ref(
                match &a.tokens.refresh_token {
                    Some(t) => Some(t.as_str()),
                    None => None,
                },
            ),
            None => None,
        },
    };
    CodexTokens { id_token, access_token, refresh_token }
}

// ---------------------------------------------------------------------------
// Identities read from tokens
// ---------------------------------------------------------------------------

/// The claim under which OpenAI tokens carry account data.
pub open spec fn auth_claim() -> Seq<char> {
    "https://api.openai.com/auth"@
}

/// The claim under which OpenAI tokens carry profile data.
pub open spec fn profile_claim() -> Seq<char> {
    "https://api.openai.com/profile"@
}

/// The JSON text of a three-part token's payload, when it decodes.
pub open spec fn jwt_payload(token: Seq<char>) -> Option<Seq<char>> {
    let parts = split_char(token, '.');
    if parts.len() != 3 {
        None
    } else {
        match base64_url_decode(parts[1]) {
            Err(_) => None,
            Ok(b) => if vstd::utf8::valid_utf8(b) {
                Some(vstd::utf8::decode_utf8(b))
            } else {
                None
            },
        }
    }
}

/// The string member `key` of a JSON object text, trimmed and not blank.
pub open spec fn json_text_field(object: Seq<char>, key: Seq<char>) -> Option<Seq<char>> {
    match json_member(object, key) {
        Some(m) => normalized_opt(json_string(m)),
        None => None,
    }
}

/// The string member `key` of a JSON object text, as it is.
pub open spec fn json_raw_field(object: Seq<char>, key: Seq<char>) -> Option<Seq<char>> {
    match json_member(object, key) {
        Some(m) => json_string(m),
        None => None,
    }
}

/// The payload text of a three-part token.
pub(crate) fn jwt_payload_text(token: &str) -> (r: Option<String>)
    ensures
        opt_str(r) == jwt_payload(token@),
{
    let parts = crate::text::split_on_char(&crate::text::chars_of(token), '.');
    proof {
        assert(parts@.map_values(|p: Vec<char>| p@).len() == parts@.len());
    }
    if parts.len() != 3 {
        return None;
    }
    assert(parts@.map_values(|p: Vec<char>| p@)[1] == parts@[1]@);
    let middle = crate::text::string_of(&parts[1]);
    let bytes = match decode_base64_url(middle.as_str()) {
        Ok(b) => b,
        Err(_) => {
            return None;
        },
    };
    text_from_utf8(bytes)
}

/// A trimmed, non-blank string member of a JSON object text.
pub(crate) fn json_text_member(object: &str, key: &str) -> (r: Option<String>)
    ensures
        opt_str(r) == json_text_field(object@, key@),
{
    let member = match json_get_member(object, key) {
        Some(m) => m,
        None => {
            return None;
        },
    };
    let s = json_as_string(member.as_str());
    normalize_optional_value(s)
}

/// A string member of a JSON object text, as it is.
pub(crate) fn json_raw_member(object: &str, key: &str) -> (r: Option<String>)
    ensures
        opt_str(r) == json_raw_field(object@, key@),
{
    match json_get_member(object, key) {
        Some(m) => json_as_string(m.as_str()),
        None => None,
    }
}

/// What `extract_chatgpt_account_id_from_access_token` gives: the account id
/// in the token's auth claim (`chatgpt_account_id`, else `account_id`).
pub open spec fn access_token_account_id(token: Seq<char>) -> Option<Seq<char>> {
    match jwt_payload(token) {
        None => None,
        Some(p) => match json_member(p, auth_claim()) {
            None => None,
            Some(a) => first_some(json_text_field(a, "chatgpt_account_id"@), json_text_field(a, "account_id"@)),
        },
    }
}

/// `extract_chatgpt_account_id_from_access_token`.
pub fn extract_chatgpt_account_id_from_access_token(access_token: &str) -> (r: Option<String>)
    ensures
        opt_str(r) == access_token_account_id(access_token@),
{
    let payload = match jwt_payload_text(access_token) {
        Some(p) => p,
        None => {
            return None;
        },
    };
    let auth = match json_get_member(payload.as_str(), "https://api.openai.com/auth") {
        Some(a) => a,
        None => {
            return None;
        },
    };
    match json_text_member(auth.as_str(), "chatgpt_account_id") {
        Some(id) => Some(id),
        None => json_text_member(auth.as_str(), "account_id"),
    }
}

/// A claim that may be a string (trimmed, not blank) or an integer (in decimal).
pub open spec fn json_scalar_field(object: Seq<char>, key: Seq<char>) -> Option<Seq<char>> {
    match json_member(object, key) {
        Some(m) => match json_string(m) {
            Some(s) => non_blank(s),
            None => json_integer(m),
        },
        None => None,
    }
}

/// A string or integer member of a JSON object text.
pub(crate) fn json_scalar_member(object: &str, key: &str) -> (r: Option<String>)
    ensures
        opt_str(r) == json_scalar_field(object@, key@),
{
    let member = match json_get_member(object, key) {
        Some(m) => m,
        None => {
            return None;
        },
    };
    match json_as_string(member.as_str()) {
        Some(s) => normalize_optional_ref(Some(s.as_str())),
        None => json_as_integer_text(member.as_str()),
    }
}

/// The identity an id token carries: email, user id, plan, subscription end,
/// account id and organization id; or why it cannot be read.
pub open spec fn id_token_identity(id_token: Seq<char>) -> Result<
    (
        Seq<char>,
        Option<Seq<char>>,
        Option<Seq<char>>,
        Option<Seq<char>>,
        Option<Seq<char>>,
        Option<Seq<char>>,
    ),
    Seq<char>,
> {
    let parts = split_char(id_token, '.');
    if parts.len() < 2 {
        Err("无效的 JWT Token 格式"@)
    } else {
        match base64_url_decode(parts[1]) {
            Err(e) => Err("Base64 解码失败: "@ + e),
            Ok(b) => match json_from_bytes(b) {
                Err(e) => Err("JSON 解析失败: "@ + e),
                Ok(p) => {
                    let email = first_some(
                        json_raw_field(p, "email"@),
                        match json_member(p, profile_claim()) {
                            Some(pr) => json_raw_field(pr, "email"@),
                            None => None,
                        },
                    );
                    match email {
                        None => Err("id_token 中缺少 email"@),
                        Some(e) => match json_member(p, auth_claim()) {
                            None => Ok((e, None, None, None, None, None)),
                            Some(a) => Ok(
                                (
                                    e,
                                    json_raw_field(a, "chatgpt_user_id"@),
                                    json_raw_field(a, "chatgpt_plan_type"@),
                                    json_scalar_field(a, "chatgpt_subscription_active_until"@),
                                    first_some(json_raw_field(a, "account_id"@), json_raw_field(a, "chatgpt_account_id"@)),
                                    json_raw_field(a, "organization_id"@),
                                ),
                            ),
                        },
                    }
                },
            },
        }
    }
}

/// `extract_user_info`: the identity an id token carries.
pub fn extract_user_info(id_token: &str) -> (r: Result<
    (String, Option<String>, Option<String>, Option<String>, Option<String>, Option<String>),
    String,
>)
    ensures
        match id_token_identity(id_token@) {
            Ok(v) => r matches Ok(t) && t.0@ == v.0 && opt_str(t.1) == v.1 && opt_str(t.2) == v.2 && opt_str(t.3)
                == v.3 && opt_str(t.4) == v.4 && opt_str(t.5) == v.5,
            Err(e) => r matches Err(m) && m@ == e,
        },
{
    let parts = crate::text::split_on_char(&crate::text::chars_of(id_token), '.');
    proof {
        assert(parts@.map_values(|p: Vec<char>| p@).len() == parts@.len());
    }
    if parts.len() < 2 {
        return Err("无效的 JWT Token 格式".to_string());
    }
    assert(parts@.map_values(|p: Vec<char>| p@)[1] == parts@[1]@);
    let middle = crate::text::string_of(&parts[1]);
    let bytes = match decode_base64_url(middle.as_str()) {
        Ok(b) => b,
        Err(e) => {
            return Err(crate::text::concat("Base64 解码失败: ", e.as_str()));
        },
    };
    let payload = match parse_json_bytes(&bytes) {
        Ok(p) => p,
        Err(e) => {
            return Err(crate::text::concat("JSON 解析失败: ", e.as_str()));
        },
    };
    let email = match json_raw_member(payload.as_str(), "email") {
        Some(e) => Some(e),
        None => match json_get_member(payload.as_str(), "https://api.openai.com/profile") {
            Some(pr) => json_raw_member(pr.as_str(), "email"),
            None => None,
        },
    };
    let email = match email {
        Some(e) => e,
        None => {
            return Err("id_token 中缺少 email".to_string());
        },
    };
    match json_get_member(payload.as_str(), "https://api.openai.com/auth") {
        None => Ok((email, None, None, None, None, None)),
        Some(a) => Ok(
            (
                email,
                json_raw_member(a.as_str(), "chatgpt_user_id"),
                json_raw_member(a.as_str(), "chatgpt_plan_type"),
                json_scalar_member(a.as_str(), "chatgpt_subscription_active_until"),
                match json_raw_member(a.as_str(), "account_id") {
                    Some(id) => Some(id),
                    None => json_raw_member(a.as_str(), "chatgpt_account_id"),
                },
                json_raw_member(a.as_str(), "organization_id"),
            ),
        ),
    }
}

// ---------------------------------------------------------------------------
// Finding an account again
// ---------------------------------------------------------------------------

/// The ids an account was saved with, when it could be loaded.
pub open spec fn loaded_ids(l: Option<(Option<String>, Option<String>)>) -> Option<(Option<Seq<char>>, Option<Seq<char>>)> {
    match l {
        Some(p) => Some((opt_str(p.0), opt_str(p.1))),
        None => None,
    }
}

/// Whether summary `k` has the email (whatever its case).
pub open spec fn email_matches(accounts: Seq<CodexAccountSummary>, email: Seq<char>, k: int) -> bool {
    eq_ignore_case(accounts[k].email@, email)
}

/// Whether summary `k` has the email and its loaded account has exactly the ids.
pub open spec fn exact_match(
    accounts: Seq<CodexAccountSummary>,
    loaded: Seq<Option<(Option<String>, Option<String>)>>,
    email: Seq<char>,
    account_id: Option<Seq<char>>,
    organization_id: Option<Seq<char>>,
    k: int,
) -> bool {
    &&& email_matches(accounts, email, k)
    &&& match loaded_ids(loaded[k]) {
        Some(ids) => normalized_opt(ids.0) == normalized_opt(account_id) && normalized_opt(ids.1) == normalized_opt(
            organization_id,
        ),
        None => false,
    }
}

/// How many summaries from `i` on have the email.
pub open spec fn count_email_matches(accounts: Seq<CodexAccountSummary>, email: Seq<char>, i: int) -> nat
    decreases accounts.len() - i,
{
    if i < 0 || i >= accounts.len() {
        0
    } else {
        (if email_matches(accounts, email, i) {
            1nat
        } else {
            0nat
        }) + count_email_matches(accounts, email, i + 1)
    }
}

/// What `find_existing_account_id` gives. `loaded[k]` holds the ids that
/// the account of summary `k` was saved with, or nothing when it could not
/// be loaded. The first exact match wins; without ids to match, a single
/// account with the email is taken.
pub open spec fn existing_account(
    accounts: Seq<CodexAccountSummary>,
    loaded: Seq<Option<(Option<String>, Option<String>)>>,
    email: Seq<char>,
    account_id: Option<Seq<char>>,
    organization_id: Option<Seq<char>>,
) -> Option<Seq<char>> {
    if exists|k: int| 0 <= k < accounts.len() && exact_match(accounts, loaded, email, account_id, organization_id, k) {
        let k = choose|k: int|
            0 <= k < accounts.len() && exact_match(accounts, loaded, email, account_id, organization_id, k) && forall|
                m: int,
            | 0 <= m < k ==> !exact_match(accounts, loaded, email, account_id, organization_id, m);
        Some(accounts[k].id@)
    } else if normalized_opt(account_id) is Some || normalized_opt(organization_id) is Some {
        None
    } else if count_email_matches(accounts, email, 0) == 1 {
        let k = choose|k: int| 0 <= k < accounts.len() && email_matches(accounts, email, k);
        Some(accounts[k].id@)
    } else {
        None
    }
}

/// The count of matches from `i` on, when none lies in `[i, j)`.
proof fn lemma_count_skip(accounts: Seq<CodexAccountSummary>, email: Seq<char>, i: int, j: int)
    requires
        0 <= i <= j,
        forall|m: int| i <= m < j && m < accounts.len() ==> !email_matches(accounts, email, m),
    ensures
        count_email_matches(accounts, email, i) == count_email_matches(accounts, email, j),
    decreases j - i,
{
    if i < j {
        lemma_count_skip(accounts, email, i + 1, j);
    }
}

/// A match at `k` is the only one from `i` on when the count from `i` is one.
proof fn lemma_count_one(accounts: Seq<CodexAccountSummary>, email: Seq<char>, i: int, k: int, m: int)
    requires
        0 <= i <= k,
        k < accounts.len(),
        email_matches(accounts, email, k),
        count_email_matches(accounts, email, i) == 1,
        i <= m < accounts.len(),
        m != k,
    ensures
        !email_matches(accounts, email, m),
    decreases k - i,
{
    if i < k {
        if email_matches(accounts, email, i) {
            lemma_count_positive(accounts, email, i + 1, k);
        } else {
            if m == i {
            } else {
                lemma_count_one(accounts, email, i + 1, k, m);
            }
        }
    } else {
        lemma_count_zero(accounts, email, i + 1, m);
    }
}

/// A match at `k >= i` makes the count from `i` positive.
proof fn lemma_count_positive(accounts: Seq<CodexAccountSummary>, email: Seq<char>, i: int, k: int)
    requires
        0 <= i <= k,
        k < accounts.len(),
        email_matches(accounts, email, k),
    ensures
        count_email_matches(accounts, email, i) >= 1,
    decreases k - i,
{
    if i < k {
        lemma_count_positive(accounts, email, i + 1, k);
    }
}

/// A zero count from `i` means no match at any `m >= i`.
proof fn lemma_count_zero(accounts: Seq<CodexAccountSummary>, email: Seq<char>, i: int, m: int)
    requires
        0 <= i <= m < accounts.len(),
        count_email_matches(accounts, email, i) == 0,
    ensures
        !email_matches(accounts, email, m),
    decreases m - i,
{
    if i < m {
        lemma_count_zero(accounts, email, i + 1, m);
    }
}

/// `find_existing_account_id`: the stored account that a login with this
/// email and these ids belongs to. `loaded[k]` holds the ids of the account
/// of summary `k` as loaded from storage by the caller.
pub fn find_existing_account_id(
    index: &CodexAccountIndex,
    loaded: &Vec<Option<(Option<String>, Option<String>)>>,
    email: &str,
    account_id: Option<&str>,
    organization_id: Option<&str>,
) -> (r: Option<String>)
    requires
        loaded@.len() == index.accounts@.len(),
    ensures
        opt_str(r) == existing_account(index.accounts@, loaded@, email@, opt_ref(account_id), opt_ref(organization_id)),
{
    let ghost accs = index.accounts@;
    let ghost aid = opt_ref(account_id);
    let ghost oid = opt_ref(organization_id);
    let expected_account_id = normalize_optional_ref(account_id);
    let expected_org_id = normalize_optional_ref(organization_id);
    let mut first_email_match: Option<usize> = None;
    let mut email_match_count: usize = 0;
    let mut i: usize = 0;
    while i < index.accounts.len()
        invariant
            i <= accs.len(),
            accs == index.accounts@,
            loaded@.len() == accs.len(),
            aid == opt_ref(account_id),
            oid == opt_ref(organization_id),
            opt_str(expected_account_id) == normalized_opt(aid),
            opt_str(expected_org_id) == normalized_opt(oid),
            forall|m: int| 0 <= m < i ==> !exact_match(accs, loaded@, email@, aid, oid, m),
            email_match_count <= i,
            email_match_count + count_email_matches(accs, email@, i as int) == count_email_matches(accs, email@, 0),
            match first_email_match {
                Some(f) => f < i && email_matches(accs, email@, f as int) && forall|m: int|
                    0 <= m < f ==> !email_matches(accs, email@, m),
                None => email_match_count == 0 && forall|m: int| 0 <= m < i ==> !email_matches(accs, email@, m),
            },
        decreases accs.len() - i,
    {
        let summary = &index.accounts[i];
        if !crate::text::eq_ignore_case_exec(summary.email.as_str(), email) {
            i += 1;
            continue;
        }
        email_match_count += 1;
        if first_email_match.is_none() {
            first_email_match = Some(i);
        }
        match &loaded[i] {
            Some(ids) => {
                let current_account_id = normalize_optional_ref(
                    match &ids.0 {
                        Some(v) => Some(v.as_str()),
                        None => None,
                    },
                );
                let current_org_id = normalize_optional_ref(
                    match &ids.1 {
                        Some(v) => Some(v.as_str()),
                        None => None,
                    },
                );
                if crate::strings::opt_string_eq(&current_account_id, &expected_account_id)
                    && crate::strings::opt_string_eq(&current_org_id, &expected_org_id) {
                    assert(exact_match(accs, loaded@, email@, aid, oid, i as int));
                    return Some(summary.id.clone());
                }
            },
            None => {},
        }
        i += 1;
    }
    if expected_account_id.is_some() || expected_org_id.is_some() {
        return None;
    }
    if email_match_count == 1 {
        match first_email_match {
            Some(f) => {
                proof {
                    assert forall|m: int| 0 <= m < accs.len() && m != f implies !email_matches(accs, email@, m) by {
                        if m < f {
                        } else {
                            lemma_count_one(accs, email@, 0, f as int, m);
                        }
                    }
                }
                return Some(index.accounts[f].id.clone());
            },
            None => {
                return None;
            },
        }
    }
    None
}

/// What a new OAuth account created at `now` holds besides its id, email,
/// tokens, account id and organization id.
pub open spec fn fresh_account(r: CodexAccount, now: i64) -> bool {
    &&& r.auth_mode == CodexAuthMode::Oauth
    &&& r.api_provider_mode == CodexApiProviderMode::OpenaiBuiltin
    &&& r.openai_api_key is None && r.api_base_url is None && r.api_provider_id is None && r.api_provider_name is None
    &&& r.account_name is None && r.plan_type is None && r.user_id is None && r.auth_file_plan_type is None
    &&& r.subscription_active_until is None
    &&& r.account_structure is None && r.quota is None && r.quota_error is None
    &&& r.tags is None && r.account_note is None && r.bound_oauth_account_id is None
    &&& r.token_generation == 0 && r.token_updated_at is None && r.token_source_mode@ == "managed"@
    &&& !r.requires_reauth && r.reauth_reason is None
    &&& r.created_at == now && r.last_used == now
}

impl CodexAccount {
    /// A new OAuth account, created at `now`.
    pub fn new(id: String, email: String, tokens: CodexTokens, now: i64) -> (r: CodexAccount)
        ensures
            r.id == id,
            r.email == email,
            r.tokens == tokens,
            fresh_account(r, now),
            r.account_id is None && r.organization_id is None,
    {
        CodexAccount {
            id,
            email,
            auth_mode: CodexAuthMode::Oauth,
            openai_api_key: None,
            api_base_url: None,
            api_provider_mode: CodexApiProviderMode::OpenaiBuiltin,
            api_provider_id: None,
            api_provider_name: None,
            account_name: None,
            plan_type: None,
            auth_file_plan_type: None,
            tokens,
            user_id: None,
            subscription_active_until: None,
            account_id: None,
            organization_id: None,
            account_structure: None,
            quota: None,
            quota_error: None,
            tags: None,
            account_note: None,
            bound_oauth_account_id: None,
            token_generation: 0,
            token_updated_at: None,
            token_source_mode: "managed".to_string(),
            requires_reauth: false,
            reauth_reason: None,
            created_at: now,
            last_used: now,
        }
    }

    /// Whether the account signs in with an API key.
    pub fn is_api_key_auth(&self) -> (r: bool)
        ensures
            r == (self.auth_mode == CodexAuthMode::Apikey),
    {
        match self.auth_mode {
            CodexAuthMode::Apikey => true,
            CodexAuthMode::Oauth => false,
        }
    }
}

// ---------------------------------------------------------------------------
// Refreshing managed accounts
// ---------------------------------------------------------------------------

/// How long a managed token may go without a refresh: eight days.
pub const CODEX_PROACTIVE_REFRESH_INTERVAL_SECONDS: i64 = 691200;

/// `is_managed_auth_refresh_due` at time `now`: an OAuth account that can
/// refresh and needs no new login is due when its access token has expired
/// (`access_token_expired`) or was last updated eight days or more ago (or
/// never).
pub fn is_managed_auth_refresh_due(account: &CodexAccount, access_token_expired: bool, now: i64) -> (r: bool)
    ensures
        r == (account.auth_mode != CodexAuthMode::Apikey && !account.requires_reauth && normalized_opt(
            opt_str(account.tokens.refresh_token),
        ) is Some && (access_token_expired || match account.token_updated_at {
            Some(t) => t <= now - CODEX_PROACTIVE_REFRESH_INTERVAL_SECONDS,
            None => true,
        })),
{
    if account.is_api_key_auth() || account.requires_reauth || !account_has_refresh_token(account) {
        return false;
    }
    if access_token_expired {
        return true;
    }
    match account.token_updated_at {
        Some(updated_at) => (updated_at as i128) <= (now as i128) - (CODEX_PROACTIVE_REFRESH_INTERVAL_SECONDS as i128),
        None => true,
    }
}

// ---------------------------------------------------------------------------
// Tokens found in the official Codex store
// ---------------------------------------------------------------------------

/// The tokens and identity read from an `auth.json`.
#[derive(Debug)]
pub struct LocalCodexOAuthSnapshot {
    pub tokens: CodexTokens,
    pub email: String,
    pub subscription_active_until: Option<String>,
    pub account_id: Option<String>,
    pub organization_id: Option<String>,
    pub last_refresh_at: Option<i64>,
}

/// Whether the snapshot's tokens differ from the account's.
pub open spec fn token_delta(account: CodexAccount, snapshot: LocalCodexOAuthSnapshot) -> bool {
    ||| account.tokens.id_token@ != snapshot.tokens.id_token@
    ||| account.tokens.access_token@ != snapshot.tokens.access_token@
    ||| normalized_opt(opt_str(account.tokens.refresh_token)) != normalized_opt(opt_str(snapshot.tokens.refresh_token))
}

/// `local_oauth_snapshot_has_token_delta`.
pub fn local_oauth_snapshot_has_token_delta(account: &CodexAccount, snapshot: &LocalCodexOAuthSnapshot) -> (r: bool)
    ensures
        r == token_delta(*account, *snapshot),
{
    let a = normalize_optional_ref(
        match &account.tokens.refresh_token {
            Some(t) => Some(t.as_str()),
            None => None,
        },
    );
    let b = normalize_optional_ref(
        match &snapshot.tokens.refresh_token {
            Some(t) => Some(t.as_str()),
            None => None,
        },
    );
    !crate::text::str_eq(account.tokens.id_token.as_str(), snapshot.tokens.id_token.as_str()) || !crate::text::str_eq(
        account.tokens.access_token.as_str(),
        snapshot.tokens.access_token.as_str(),
    ) || !crate::strings::opt_string_eq(&a, &b)
}

/// `should_accept_authority_snapshot`: tokens from the official store
/// replace the account's when they differ and were refreshed no earlier
/// than the account's, or when the account's access token has expired
/// (`account_token_expired`) and the snapshot's has not
/// (`snapshot_token_expired`).
pub fn should_accept_authority_snapshot(
    account: &CodexAccount,
    snapshot: &LocalCodexOAuthSnapshot,
    account_token_expired: bool,
    snapshot_token_expired: bool,
) -> (r: bool)
    ensures
        r == (token_delta(*account, *snapshot) && ((match snapshot.last_refresh_at {
            Some(v) => v >= match account.token_updated_at {
                Some(t) => t,
                None => 0,
            },
            None => false,
        }) || (account_token_expired && !snapshot_token_expired))),
{
    if !local_oauth_snapshot_has_token_delta(account, snapshot) {
        return false;
    }
    let account_updated_at = match account.token_updated_at {
        Some(t) => t,
        None => 0,
    };
    let newer = match snapshot.last_refresh_at {
        Some(v) => v >= account_updated_at,
        None => false,
    };
    if newer {
        return true;
    }
    account_token_expired && !snapshot_token_expired
}

/// Whether the snapshot belongs to the account: same email (whatever its
/// case), and either the storage id the snapshot's identity gives or the
/// snapshot's account and organization ids where it has them.
pub open spec fn snapshot_matches(account: CodexAccount, snapshot: LocalCodexOAuthSnapshot) -> bool {
    &&& eq_ignore_case(account.email@, snapshot.email@)
    &&& (account.id@ == "codex_"@ + hex_text(
        md5_digest(storage_seed(snapshot.email@, opt_str(snapshot.account_id), opt_str(snapshot.organization_id))),
    ) || ((match opt_str(snapshot.account_id) {
        Some(id) => normalized_opt(opt_str(account.account_id)) == Some(id),
        None => true,
    }) && (match opt_str(snapshot.organization_id) {
        Some(org) => normalized_opt(opt_str(account.organization_id)) == Some(org),
        None => true,
    })))
}

/// `local_oauth_snapshot_matches_account`.
pub fn local_oauth_snapshot_matches_account(snapshot: &LocalCodexOAuthSnapshot, account: &CodexAccount) -> (r: bool)
    ensures
        r == snapshot_matches(*account, *snapshot),
{
    if !crate::text::eq_ignore_case_exec(account.email.as_str(), snapshot.email.as_str()) {
        return false;
    }
    let expected_id = build_account_storage_id(
        snapshot.email.as_str(),
        match &snapshot.account_id {
            Some(v) => Some(v.as_str()),
            None => None,
        },
        match &snapshot.organization_id {
            Some(v) => Some(v.as_str()),
            None => None,
        },
    );
    if crate::text::str_eq(account.id.as_str(), expected_id.as_str()) {
        return true;
    }
    match &snapshot.account_id {
        Some(id) => {
            let current = normalize_optional_ref(
                match &account.account_id {
                    Some(v) => Some(v.as_str()),
                    None => None,
                },
            );
            if !crate::strings::opt_string_eq(&current, &Some(id.clone())) {
                return false;
            }
        },
        None => {},
    }
    match &snapshot.organization_id {
        Some(org) => {
            let current = normalize_optional_ref(
                match &account.organization_id {
                    Some(v) => Some(v.as_str()),
                    None => None,
                },
            );
            if !crate::strings::opt_string_eq(&current, &Some(org.clone())) {
                return false;
            }
        },
        None => {},
    }
    true
}

// ---------------------------------------------------------------------------
// Plan types named in auth file names
// ---------------------------------------------------------------------------

/// A plan type text lower-cased, with `_` and spaces written as `-`.
pub open spec fn plan_key(s: Seq<char>) -> Seq<char> {
    crate::text::replace_char(crate::text::replace_char(lower(s), '_', '-'), ' ', '-')
}

/// What `normalize_auth_file_plan_type` gives: `prolite` or `promax`, or nothing.
pub open spec fn auth_file_plan(value: Option<Seq<char>>) -> Option<Seq<char>> {
    match normalized_opt(value) {
        None => None,
        Some(v) => {
            let k = plan_key(v);
            if k == "prolite"@ || k == "pro-lite"@ {
                Some("prolite"@)
            } else if k == "promax"@ || k == "pro-max"@ {
                Some("promax"@)
            } else {
                None
            }
        },
    }
}

/// A plan type text lower-cased, with `_` and spaces written as `-`.
fn plan_key_exec(v: &[char]) -> (r: Vec<char>)
    ensures
        r@ == plan_key(v@),
{
    let l = crate::text::lower_chars(v);
    let a = crate::text::replace_char_exec(&l, '_', '-');
    crate::text::replace_char_exec(&a, ' ', '-')
}

/// `normalize_auth_file_plan_type`.
pub fn normalize_auth_file_plan_type(value: Option<&str>) -> (r: Option<String>)
    ensures
        opt_str(r) == auth_file_plan(opt_ref(value)),
{
    let v = match normalize_optional_ref(value) {
        Some(v) => v,
        None => {
            return None;
        },
    };
    let k = plan_key_exec(&crate::text::chars_of(v.as_str()));
    if crate::text::chars_eq_str(&k, "prolite") || crate::text::chars_eq_str(&k, "pro-lite") {
        Some("prolite".to_string())
    } else if crate::text::chars_eq_str(&k, "promax") || crate::text::chars_eq_str(&k, "pro-max") {
        Some("promax".to_string())
    } else {
        None
    }
}

/// `apply_auth_file_plan_type`: records the normalized plan of an auth
/// file on the account; says whether that changed it.
pub fn apply_auth_file_plan_type(account: &mut CodexAccount, auth_file_plan_type: Option<String>) -> (changed: bool)
    ensures
        match auth_file_plan(opt_str(auth_file_plan_type)) {
            Some(p) => {
                &&& changed == (opt_str(old(account).auth_file_plan_type) != Some(p))
                &&& opt_str(final(account).auth_file_plan_type) == Some(p)
                &&& *final(account) == (CodexAccount {
                    auth_file_plan_type: final(account).auth_file_plan_type,
                    ..*old(account)
                })
            },
            None => !changed && *final(account) == *old(account),
        },
{
    let normalized = match &auth_file_plan_type {
        Some(v) => normalize_auth_file_plan_type(Some(v.as_str())),
        None => normalize_auth_file_plan_type(None),
    };
    let normalized = match normalized {
        Some(n) => n,
        None => {
            return false;
        },
    };
    let same = match &account.auth_file_plan_type {
        Some(cur) => crate::text::str_eq(cur.as_str(), normalized.as_str()),
        None => false,
    };
    if same {
        return false;
    }
    account.auth_file_plan_type = Some(normalized);
    true
}

/// `Path::file_stem` of a file name: the name before its last dot, unless
/// the name has no dot or only a leading one.
pub open spec fn name_stem(name: Seq<char>) -> Seq<char> {
    if name == seq!['.', '.'] {
        name
    } else {
        match crate::text::last_index(name, '.') {
            Some(i) => if i == 0 {
                name
            } else {
                name.subrange(0, i)
            },
            None => name,
        }
    }
}

/// What `detect_auth_file_plan_type_from_path` gives for a path: the plan
/// type that the file name's stem ends with, or nothing.
pub open spec fn plan_from_path(path: Seq<char>) -> Option<Seq<char>> {
    match crate::platform_package::last_named(split_char(path, '/')) {
        None => None,
        Some(name) => {
            let k = plan_key(trim(name_stem(name)));
            if crate::text::ends_with(k, "-prolite"@) || crate::text::ends_with(k, "-pro-lite"@) {
                Some("prolite"@)
            } else if crate::text::ends_with(k, "-promax"@) || crate::text::ends_with(k, "-pro-max"@) {
                Some("promax"@)
            } else {
                None
            }
        },
    }
}

/// The last named component of a `/`-separated path.
fn last_component(path: &str) -> (r: Option<Vec<char>>)
    ensures
        match crate::platform_package::last_named(split_char(path@, '/')) {
            Some(n) => r matches Some(v) && v@ == n,
            None => r is None,
        },
{
    let pieces = crate::text::split_on_char(&crate::text::chars_of(path), '/');
    let ghost sp = pieces@.map_values(|x: Vec<char>| x@);
    let mut i: usize = pieces.len();
    assert(sp.take(sp.len() as int) =~= sp);
    let dot = vec!['.'];
    proof { assert(dot@ =~= seq!['.']); }
    while i > 0
        invariant
            i <= pieces@.len(),
            sp == pieces@.map_values(|x: Vec<char>| x@),
            sp == split_char(path@, '/'),
            dot@ == seq!['.'],
            crate::platform_package::last_named(sp) == crate::platform_package::last_named(sp.take(i as int)),
        decreases i,
    {
        assert(sp.take(i as int).drop_last() =~= sp.take(i - 1));
        assert(sp.take(i as int).last() == pieces@[i - 1]@);
        if pieces[i - 1].len() > 0 && !crate::text::chars_eq(&pieces[i - 1], &dot) {
            return Some(crate::text::slice_range(&pieces[i - 1], 0, pieces[i - 1].len()));
        }
        i -= 1;
    }
    None
}

/// `detect_auth_file_plan_type_from_path` for a `/`-separated path.
pub fn detect_auth_file_plan_type_from_path(path: &str) -> (r: Option<String>)
    ensures
        opt_str(r) == plan_from_path(path@),
{
    let name = match last_component(path) {
        Some(n) => n,
        None => {
            return None;
        },
    };
    assert(name@.subrange(0, name@.len() as int) =~= name@);
    let dotdot = vec!['.', '.'];
    proof { assert(dotdot@ =~= seq!['.', '.']); }
    let stem = if crate::text::chars_eq(&name, &dotdot) {
        name
    } else {
        match crate::text::rfind_char(&name, '.') {
            Some(i) => if i == 0 {
                name
            } else {
                crate::text::slice_range(&name, 0, i)
            },
            None => name,
        }
    };
    let k = plan_key_exec(&crate::text::trim_chars(&stem));
    if crate::text::ends_with_chars(&k, &crate::text::chars_of("-prolite")) || crate::text::ends_with_chars(
        &k,
        &crate::text::chars_of("-pro-lite"),
    ) {
        return Some("prolite".to_string());
    }
    if crate::text::ends_with_chars(&k, &crate::text::chars_of("-promax")) || crate::text::ends_with_chars(
        &k,
        &crate::text::chars_of("-pro-max"),
    ) {
        return Some("promax".to_string());
    }
    None
}

// ---------------------------------------------------------------------------
// Editing accounts
// ---------------------------------------------------------------------------

/// The complaint about an account that could not be loaded.
pub open spec fn missing_account(account_id: Seq<char>) -> Seq<char> {
    "账号不存在: "@ + account_id
}

/// `update_account_tags` on the account loaded for `account_id` (none when
/// it could not be loaded): the account with the new tags, to be saved.
pub fn update_account_tags(account_id: &str, loaded: Option<CodexAccount>, tags: Vec<String>) -> (r: Result<
    CodexAccount,
    String,
>)
    ensures
        match loaded {
            None => r matches Err(m) && m@ == missing_account(account_id@),
            Some(a) => r matches Ok(b) && b.tags == Some(tags) && b == (CodexAccount { tags: b.tags, ..a }),
        },
{
    let mut account = match loaded {
        Some(a) => a,
        None => {
            return Err(crate::text::concat("账号不存在: ", account_id));
        },
    };
    account.tags = Some(tags);
    Ok(account)
}

/// `update_account_note` on the account loaded for `account_id`: the note
/// trimmed, or none when blank.
pub fn update_account_note(account_id: &str, loaded: Option<CodexAccount>, note: String) -> (r: Result<
    CodexAccount,
    String,
>)
    ensures
        match loaded {
            None => r matches Err(m) && m@ == missing_account(account_id@),
            Some(a) => r matches Ok(b) && opt_str(b.account_note) == non_blank(note@) && b == (CodexAccount {
                account_note: b.account_note,
                ..a
            }),
        },
{
    let mut account = match loaded {
        Some(a) => a,
        None => {
            return Err(crate::text::concat("账号不存在: ", account_id));
        },
    };
    account.account_note = normalize_optional_value(Some(note));
    Ok(account)
}

/// `update_account_name` on the account loaded for `account_id`: only API
/// key accounts are renamed; the name trimmed, or none when blank.
pub fn update_account_name(account_id: &str, loaded: Option<CodexAccount>, name: String) -> (r: Result<
    CodexAccount,
    String,
>)
    ensures
        match loaded {
            None => r matches Err(m) && m@ == missing_account(account_id@),
            Some(a) => if a.auth_mode != CodexAuthMode::Apikey {
                r matches Err(m) && m@ == "仅 API Key 账号支持重命名"@
            } else {
                r matches Ok(b) && opt_str(b.account_name) == non_blank(name@) && b == (CodexAccount {
                    account_name: b.account_name,
                    ..a
                })
            },
        },
{
    let mut account = match loaded {
        Some(a) => a,
        None => {
            return Err(crate::text::concat("账号不存在: ", account_id));
        },
    };
    if !account.is_api_key_auth() {
        return Err("仅 API Key 账号支持重命名".to_string());
    }
    account.account_name = normalize_optional_value(Some(name));
    Ok(account)
}

// ---------------------------------------------------------------------------
// Quota alerts and automatic switching
// ---------------------------------------------------------------------------

/// `clamp(0, 100)`.
pub open spec fn clamp_percent(raw: int) -> int {
    if raw < 0 {
        0
    } else if raw > 100 {
        100
    } else {
        raw
    }
}

/// `normalize_quota_alert_threshold`: the threshold clamped to 0..=100.
pub fn normalize_quota_alert_threshold(raw: i32) -> (r: i32)
    ensures
        r == clamp_percent(raw as int),
{
    if raw < 0 {
        0
    } else if raw > 100 {
        100
    } else {
        raw
    }
}

/// `normalize_auto_switch_threshold`: the threshold clamped to 0..=100.
pub fn normalize_auto_switch_threshold(raw: i32) -> (r: i32)
    ensures
        r == clamp_percent(raw as int),
{
    normalize_quota_alert_threshold(raw)
}

/// The scope in which only selected accounts are watched.
pub open spec fn scope_selected() -> Seq<char> {
    "selected_accounts"@
}

/// What `normalize_auto_switch_account_scope_mode` gives: the selected
/// scope when the text names it (trimmed, ASCII case ignored), else all
/// accounts.
pub open spec fn scope_mode(raw: Seq<char>) -> Seq<char> {
    if lower(trim(raw)) == scope_selected() {
        scope_selected()
    } else {
        "all_accounts"@
    }
}

/// `normalize_auto_switch_account_scope_mode`.
pub fn normalize_auto_switch_account_scope_mode(raw: &str) -> (r: String)
    ensures
        r@ == scope_mode(raw@),
{
    let l = crate::text::lower_chars(&crate::text::trimmed(raw));
    if crate::text::chars_eq_str(&l, "selected_accounts") {
        "selected_accounts".to_string()
    } else {
        "all_accounts".to_string()
    }
}

/// The selected ids trimmed, without blanks, each kept at its first place.
pub open spec fn distinct_ids(raw: Seq<Seq<char>>) -> Seq<Seq<char>>
    decreases raw.len(),
{
    if raw.len() == 0 {
        Seq::empty()
    } else {
        let acc = distinct_ids(raw.drop_last());
        let t = trim(raw.last());
        if t.len() == 0 || acc.contains(t) {
            acc
        } else {
            acc.push(t)
        }
    }
}

/// `normalize_auto_switch_selected_account_ids`.
pub fn normalize_auto_switch_selected_account_ids(raw: &Vec<String>) -> (r: Vec<String>)
    ensures
        strs(r@) == distinct_ids(strs(raw@)),
{
    let mut result: Vec<String> = Vec::new();
    let mut i: usize = 0;
    assert(strs(raw@).take(0) =~= Seq::<Seq<char>>::empty());
    while i < raw.len()
        invariant
            i <= raw@.len(),
            strs(result@) == distinct_ids(strs(raw@).take(i as int)),
        decreases raw@.len() - i,
    {
        assert(strs(raw@).take(i + 1).drop_last() =~= strs(raw@).take(i as int));
        assert(strs(raw@).take(i + 1).last() == raw@[i as int]@);
        let tv = crate::text::trimmed(raw[i].as_str());
        let t = crate::text::string_of(&tv);
        if tv.len() > 0 && !crate::strings::list_contains(&result, t.as_str()) {
            let ghost before = strs(result@);
            result.push(t);
            assert(strs(result@) =~= before.push(trim(raw@[i as int]@)));
        } else {
            proof {
                if t@.len() != 0 {
                    assert(strs(result@).contains(t@));
                }
            }
        }
        i += 1;
    }
    assert(strs(raw@).take(raw@.len() as int) =~= strs(raw@));
    result
}

/// The ids of the accounts, in order.
pub open spec fn account_ids(accounts: Seq<CodexAccount>) -> Seq<Seq<char>> {
    accounts.map_values(|a: CodexAccount| a.id@)
}

/// Whether account id `id` is watched: every account is in the whole
/// scope; in the selected scope, the selected ids that name an account.
pub open spec fn is_monitored(scope: Seq<char>, selected: Seq<Seq<char>>, accounts: Seq<CodexAccount>, id: Seq<char>) -> bool {
    account_ids(accounts).contains(id) && (scope != scope_selected() || distinct_ids(selected).contains(id))
}

/// `resolve_monitored_auto_switch_account_ids`: the watched account ids.
pub fn resolve_monitored_auto_switch_account_ids(
    scope_mode: &str,
    selected_account_ids: &Vec<String>,
    accounts: &Vec<CodexAccount>,
) -> (r: Vec<String>)
    ensures
        forall|id: Seq<char>|
            strs(r@).contains(id) <==> is_monitored(scope_mode@, strs(selected_account_ids@), accounts@, id),
{
    let ghost ids = account_ids(accounts@);
    let selected_scope = crate::text::str_eq(scope_mode, "selected_accounts");
    let selected = normalize_auto_switch_selected_account_ids(selected_account_ids);
    let mut r: Vec<String> = Vec::new();
    let mut i: usize = 0;
    while i < accounts.len()
        invariant
            i <= accounts@.len(),
            ids == account_ids(accounts@),
            selected_scope == (scope_mode@ == scope_selected()),
            strs(selected@) == distinct_ids(strs(selected_account_ids@)),
            forall|id: Seq<char>|
                strs(r@).contains(id) <==> (ids.take(i as int).contains(id) && (!selected_scope || strs(
                    selected@,
                ).contains(id))),
        decreases accounts@.len() - i,
    {
        let ghost x = accounts@[i as int].id@;
        let ghost old_ids = ids.take(i as int);
        let ghost new_ids = ids.take(i + 1);
        assert(new_ids =~= old_ids.push(x));
        let ghost before = strs(r@);
        let keep = !selected_scope || crate::strings::list_contains(&selected, accounts[i].id.as_str());
        if keep {
            r.push(accounts[i].id.clone());
            assert(strs(r@) =~= before.push(x));
        }
        proof {
            assert forall|id: Seq<char>|
                strs(r@).contains(id) <==> (new_ids.contains(id) && (!selected_scope || strs(selected@).contains(id))) by {
                assert(before.contains(id) <==> (old_ids.contains(id) && (!selected_scope || strs(selected@).contains(id))));
                assert(keep == (!selected_scope || strs(selected@).contains(x)));
                assert(new_ids[i as int] == x);
                if !keep {
                    assert(strs(r@) == before);
                }
                if new_ids.contains(id) {
                    let k = choose|k: int| 0 <= k < new_ids.len() && new_ids[k] == id;
                    if k < i {
                        assert(old_ids[k] == id);
                    }
                }
                if old_ids.contains(id) {
                    let k = choose|k: int| 0 <= k < old_ids.len() && old_ids[k] == id;
                    assert(new_ids[k] == id);
                }
                if keep {
                    if strs(r@).contains(id) {
                        let k = choose|k: int| 0 <= k < strs(r@).len() && strs(r@)[k] == id;
                        if k < before.len() {
                            assert(before[k] == id);
                        }
                    }
                    if before.contains(id) {
                        let k = choose|k: int| 0 <= k < before.len() && before[k] == id;
                        assert(strs(r@)[k] == id);
                    }
                    assert(strs(r@)[before.len() as int] == x);
                }
            }
        }
        i += 1;
    }
    assert(ids.take(accounts@.len() as int) =~= ids);
    r
}

/// The two quota windows.
#[derive(Clone, Copy, PartialEq, Eq, Structural, Debug)]
pub enum QuotaWindow {
    Primary,
    Secondary,
}

/// One quota window of an account: which, its label and its remaining percentage.
#[derive(Debug)]
pub struct CodexQuotaMetric {
    pub key: QuotaWindow,
    pub label: String,
    pub percentage: i32,
}

/// What `format_codex_quota_metric_label` gives for a window length in
/// minutes: weeks, days, hours (rounded up) or minutes, or the fallback.
pub open spec fn metric_label(window_minutes: Option<i64>, fallback: Seq<char>) -> Seq<char> {
    match window_minutes {
        Some(m) if m > 0 => if m >= 10080 - 1 {
            let weeks = (m + 10080 - 1) / 10080;
            if weeks <= 1 {
                "Weekly"@
            } else {
                nat_digits(weeks as nat) + " Week"@
            }
        } else if m >= 1440 - 1 {
            nat_digits(((m + 1440 - 1) / 1440) as nat) + "d"@
        } else if m >= 60 {
            nat_digits(((m + 60 - 1) / 60) as nat) + "h"@
        } else {
            nat_digits(m as nat) + "m"@
        },
        _ => fallback,
    }
}

/// `format_codex_quota_metric_label`.
pub fn format_codex_quota_metric_label(window_minutes: Option<i64>, fallback: &str) -> (r: String)
    ensures
        r@ == metric_label(window_minutes, fallback@),
{
    let minutes = match window_minutes {
        Some(m) if m > 0 => m,
        _ => {
            return fallback.to_string();
        },
    };
    let wide = minutes as i128;
    if minutes >= 10079 {
        let weeks = ((wide + 10079) / 10080) as u64;
        if weeks <= 1 {
            return "Weekly".to_string();
        }
        let n = crate::text::u64_text(weeks);
        return crate::text::concat(n.as_str(), " Week");
    }
    if minutes >= 1439 {
        let days = ((wide + 1439) / 1440) as u64;
        let n = crate::text::u64_text(days);
        return crate::text::concat(n.as_str(), "d");
    }
    if minutes >= 60 {
        let hours = ((wide + 59) / 60) as u64;
        let n = crate::text::u64_text(hours);
        return crate::text::concat(n.as_str(), "h");
    }
    let n = crate::text::u64_text(minutes as u64);
    crate::text::concat(n.as_str(), "m")
}

/// The content of a metric.
pub open spec fn metric_view(m: CodexQuotaMetric) -> (QuotaWindow, Seq<char>, int) {
    (m.key, m.label@, m.percentage as int)
}

/// What `extract_quota_metrics` gives: the windows the quota says are
/// present (both when it says nothing), or the primary one alone.
pub open spec fn quota_metrics(quota: Option<CodexQuota>) -> Seq<(QuotaWindow, Seq<char>, int)> {
    match quota {
        None => Seq::empty(),
        Some(q) => {
            let has_presence = q.hourly_window_present is Some || q.weekly_window_present is Some;
            let primary = (
                QuotaWindow::Primary,
                metric_label(q.hourly_window_minutes, "5h"@),
                clamp_percent(q.hourly_percentage as int),
            );
            let secondary = (
                QuotaWindow::Secondary,
                metric_label(q.weekly_window_minutes, "Weekly"@),
                clamp_percent(q.weekly_percentage as int),
            );
            let with_primary: Seq<(QuotaWindow, Seq<char>, int)> = if !has_presence || q.hourly_window_present
                == Some(true) {
                seq![primary]
            } else {
                Seq::empty()
            };
            let both = if !has_presence || q.weekly_window_present == Some(true) {
                with_primary.push(secondary)
            } else {
                with_primary
            };
            if both.len() == 0 {
                seq![primary]
            } else {
                both
            }
        },
    }
}

/// `extract_quota_metrics`.
pub fn extract_quota_metrics(account: &CodexAccount) -> (r: Vec<CodexQuotaMetric>)
    ensures
        r@.map_values(|m: CodexQuotaMetric| metric_view(m)) == quota_metrics(account.quota),
{
    let q = match account.quota {
        Some(q) => q,
        None => {
            let r: Vec<CodexQuotaMetric> = Vec::new();
            assert(r@.map_values(|m: CodexQuotaMetric| metric_view(m)) =~= Seq::empty());
            return r;
        },
    };
    let has_presence = q.hourly_window_present.is_some() || q.weekly_window_present.is_some();
    let mut metrics: Vec<CodexQuotaMetric> = Vec::new();
    let ghost primary = (
        QuotaWindow::Primary,
        metric_label(q.hourly_window_minutes, "5h"@),
        clamp_percent(q.hourly_percentage as int),
    );
    let ghost secondary = (
        QuotaWindow::Secondary,
        metric_label(q.weekly_window_minutes, "Weekly"@),
        clamp_percent(q.weekly_percentage as int),
    );
    if !has_presence || q.hourly_window_present == Some(true) {
        metrics.push(
            CodexQuotaMetric {
                key: QuotaWindow::Primary,
                label: format_codex_quota_metric_label(q.hourly_window_minutes, "5h"),
                percentage: normalize_quota_alert_threshold(q.hourly_percentage),
            },
        );
    }
    let ghost first = metrics@.map_values(|m: CodexQuotaMetric| metric_view(m));
    if !has_presence || q.weekly_window_present == Some(true) {
        metrics.push(
            CodexQuotaMetric {
                key: QuotaWindow::Secondary,
                label: format_codex_quota_metric_label(q.weekly_window_minutes, "Weekly"),
                percentage: normalize_quota_alert_threshold(q.weekly_percentage),
            },
        );
        assert(metrics@.map_values(|m: CodexQuotaMetric| metric_view(m)) =~= first.push(secondary));
    }
    if metrics.len() == 0 {
        metrics.push(
            CodexQuotaMetric {
                key: QuotaWindow::Primary,
                label: format_codex_quota_metric_label(q.hourly_window_minutes, "5h"),
                percentage: normalize_quota_alert_threshold(q.hourly_percentage),
            },
        );
    }
    assert(metrics@.map_values(|m: CodexQuotaMetric| metric_view(m)) =~= quota_metrics(account.quota));
    metrics
}

/// The threshold of a window.
pub open spec fn window_threshold(key: QuotaWindow, primary: int, secondary: int) -> int {
    match key {
        QuotaWindow::Primary => primary,
        QuotaWindow::Secondary => secondary,
    }
}

/// `metric_crossed_threshold`: the remaining percentage is at or below the window's threshold.
pub fn metric_crossed_threshold(metric: &CodexQuotaMetric, primary_threshold: i32, secondary_threshold: i32) -> (r: bool)
    ensures
        r == (metric.percentage <= window_threshold(metric.key, primary_threshold as int, secondary_threshold as int)),
{
    match metric.key {
        QuotaWindow::Primary => metric.percentage <= primary_threshold,
        QuotaWindow::Secondary => metric.percentage <= secondary_threshold,
    }
}

/// `metric_above_threshold`: the remaining percentage is above the window's threshold.
pub fn metric_above_threshold(metric: &CodexQuotaMetric, primary_threshold: i32, secondary_threshold: i32) -> (r: bool)
    ensures
        r == (metric.percentage > window_threshold(metric.key, primary_threshold as int, secondary_threshold as int)),
{
    !metric_crossed_threshold(metric, primary_threshold, secondary_threshold)
}

/// `metric_margin_over_threshold`: how far the percentage is above the threshold.
pub fn metric_margin_over_threshold(metric: &CodexQuotaMetric, primary_threshold: i32, secondary_threshold: i32) -> (r: i64)
    ensures
        r == metric.percentage - window_threshold(metric.key, primary_threshold as int, secondary_threshold as int),
{
    match metric.key {
        QuotaWindow::Primary => metric.percentage as i64 - primary_threshold as i64,
        QuotaWindow::Secondary => metric.percentage as i64 - secondary_threshold as i64,
    }
}

/// How an account ranks as a switch target: its smallest margin over the
/// thresholds, its smallest percentage, twice its average percentage (it has
/// one or two windows, so this is exact), and when it was last used.
#[derive(Debug)]
pub struct CodexSwitchCandidate {
    pub min_margin: i64,
    pub min_percentage: i64,
    pub doubled_average: i64,
    pub last_used: i64,
}

/// The ranking key of a candidate.
pub open spec fn candidate_key(c: CodexSwitchCandidate) -> (int, int, int, int) {
    (c.min_margin as int, c.min_percentage as int, c.doubled_average as int, c.last_used as int)
}

/// The smallest value among `f` of the metrics.
pub open spec fn min_of(ms: Seq<(QuotaWindow, Seq<char>, int)>, f: spec_fn((QuotaWindow, Seq<char>, int)) -> int) -> int
    decreases ms.len(),
{
    if ms.len() <= 1 {
        if ms.len() == 1 {
            f(ms[0])
        } else {
            0
        }
    } else {
        let rest = min_of(ms.drop_last(), f);
        if f(ms.last()) < rest {
            f(ms.last())
        } else {
            rest
        }
    }
}

/// The margin of a metric over its threshold.
pub open spec fn margin_of(primary: int, secondary: int) -> spec_fn((QuotaWindow, Seq<char>, int)) -> int {
    |m: (QuotaWindow, Seq<char>, int)| m.2 - window_threshold(m.0, primary, secondary)
}

/// The percentage of a metric.
pub open spec fn percentage_of() -> spec_fn((QuotaWindow, Seq<char>, int)) -> int {
    |m: (QuotaWindow, Seq<char>, int)| m.2
}

/// The sum of the metrics' percentages.
pub open spec fn percentage_sum(ms: Seq<(QuotaWindow, Seq<char>, int)>) -> int
    decreases ms.len(),
{
    if ms.len() == 0 {
        0
    } else {
        percentage_sum(ms.drop_last()) + ms.last().2
    }
}

/// What `build_switch_candidate` gives for an account: its ranking key when
/// it has windows and every one is above its threshold.
pub open spec fn switch_candidate(account: CodexAccount, primary: int, secondary: int) -> Option<(int, int, int, int)> {
    let ms = quota_metrics(account.quota);
    if ms.len() == 0 {
        None
    } else if exists|k: int| 0 <= k < ms.len() && ms[k].2 <= window_threshold(ms[k].0, primary, secondary) {
        None
    } else {
        Some(
            (
                min_of(ms, margin_of(primary, secondary)),
                min_of(ms, percentage_of()),
                if ms.len() == 1 {
                    2 * percentage_sum(ms)
                } else {
                    percentage_sum(ms)
                },
                account.last_used as int,
            ),
        )
    }
}

/// `build_switch_candidate`.
pub fn build_switch_candidate(account: &CodexAccount, primary_threshold: i32, secondary_threshold: i32) -> (r: Option<
    CodexSwitchCandidate,
>)
    requires
        0 <= primary_threshold <= 100,
        0 <= secondary_threshold <= 100,
    ensures
        match switch_candidate(*account, primary_threshold as int, secondary_threshold as int) {
            Some(k) => r matches Some(c) && candidate_key(c) == k,
            None => r is None,
        },
{
    let metrics = extract_quota_metrics(account);
    let ghost ms = metrics@.map_values(|m: CodexQuotaMetric| metric_view(m));
    let ghost p = primary_threshold as int;
    let ghost s = secondary_threshold as int;
    if metrics.len() == 0 {
        return None;
    }
    let mut min_margin: i64 = 0;
    let mut min_percentage: i64 = 0;
    let mut sum: i64 = 0;
    let mut i: usize = 0;
    assert(ms.len() <= 2);
    while i < metrics.len()
        invariant
            i <= metrics@.len(),
            metrics@.len() == ms.len(),
            1 <= ms.len() <= 2,
            ms == metrics@.map_values(|m: CodexQuotaMetric| metric_view(m)),
            ms == quota_metrics(account.quota),
            p == primary_threshold as int,
            s == secondary_threshold as int,
            0 <= primary_threshold <= 100,
            0 <= secondary_threshold <= 100,
            forall|k: int| 0 <= k < ms.len() ==> 0 <= #[trigger] ms[k].2 <= 100,
            forall|k: int| 0 <= k < i ==> ms[k].2 > window_threshold(ms[k].0, p, s),
            i > 0 ==> min_margin == min_of(ms.take(i as int), margin_of(p, s)),
            i > 0 ==> min_percentage == min_of(ms.take(i as int), percentage_of()),
            sum == percentage_sum(ms.take(i as int)),
            0 <= sum <= 100 * i,
        decreases metrics@.len() - i,
    {
        let m = &metrics[i];
        assert(ms[i as int] == metric_view(*m));
        assert(ms.take(i + 1).drop_last() =~= ms.take(i as int));
        assert(ms.take(i + 1).last() == ms[i as int]);
        if !metric_above_threshold(m, primary_threshold, secondary_threshold) {
            return None;
        }
        let margin = metric_margin_over_threshold(m, primary_threshold, secondary_threshold);
        let pct = m.percentage as i64;
        if i == 0 || margin < min_margin {
            min_margin = margin;
        }
        if i == 0 || pct < min_percentage {
            min_percentage = pct;
        }
        sum = sum + pct;
        i += 1;
    }
    assert(ms.take(ms.len() as int) =~= ms);
    let doubled = if metrics.len() == 1 {
        2 * sum
    } else {
        sum
    };
    Some(
        CodexSwitchCandidate {
            min_margin,
            min_percentage,
            doubled_average: doubled,
            last_used: account.last_used,
        },
    )
}

/// Whether key `a` ranks strictly before key `b`: larger margin, then larger
/// smallest percentage, then larger average, then used longer ago.
pub open spec fn ranks_before(a: (int, int, int, int), b: (int, int, int, int)) -> bool {
    ||| a.0 > b.0
    ||| (a.0 == b.0 && a.1 > b.1)
    ||| (a.0 == b.0 && a.1 == b.1 && a.2 > b.2)
    ||| (a.0 == b.0 && a.1 == b.1 && a.2 == b.2 && a.3 < b.3)
}

/// Whether position `i` holds the best of the keys: nothing ranks before
/// it, and it ranks before every earlier key (it is the first of the best).
pub open spec fn is_best_at(keys: Seq<Option<(int, int, int, int)>>, i: int) -> bool {
    &&& 0 <= i < keys.len()
    &&& keys[i] is Some
    &&& forall|j: int| 0 <= j < keys.len() && keys[j] is Some ==> !ranks_before(keys[j].unwrap(), keys[i].unwrap())
    &&& forall|j: int| 0 <= j < i && keys[j] is Some ==> ranks_before(keys[i].unwrap(), keys[j].unwrap())
}

/// The best position, if any key is present.
pub open spec fn best_position(keys: Seq<Option<(int, int, int, int)>>) -> Option<int> {
    if exists|i: int| is_best_at(keys, i) {
        Some(choose|i: int| is_best_at(keys, i))
    } else {
        None
    }
}

/// At most one position is the best.
pub proof fn lemma_best_unique(keys: Seq<Option<(int, int, int, int)>>, i: int, j: int)
    requires
        is_best_at(keys, i),
        is_best_at(keys, j),
    ensures
        i == j,
{
    if i < j {
        assert(ranks_before(keys[j].unwrap(), keys[i].unwrap()));
    } else if j < i {
        assert(ranks_before(keys[i].unwrap(), keys[j].unwrap()));
    }
}

/// `pick_best_candidate` over candidate keys by position (`None` where an
/// account is no candidate): the position of the first best candidate, as
/// the stable sort of the candidates puts it first.
pub fn pick_best_candidate(candidates: &Vec<Option<CodexSwitchCandidate>>) -> (r: Option<usize>)
    ensures
        match r {
            Some(j) => best_position(candidates@.map_values(|c: Option<CodexSwitchCandidate>| match c {
                Some(x) => Some(candidate_key(x)),
                None => None,
            })) == Some(j as int),
            None => best_position(candidates@.map_values(|c: Option<CodexSwitchCandidate>| match c {
                Some(x) => Some(candidate_key(x)),
                None => None,
            })) is None,
        },
        r is None ==> forall|j: int| 0 <= j < candidates@.len() ==> candidates@[j] is None,
{
    let ghost keys = candidates@.map_values(|c: Option<CodexSwitchCandidate>| match c {
        Some(x) => Some(candidate_key(x)),
        None => None,
    });
    let mut best: Option<usize> = None;
    let mut i: usize = 0;
    while i < candidates.len()
        invariant
            i <= candidates@.len(),
            keys.len() == candidates@.len(),
            keys == candidates@.map_values(|c: Option<CodexSwitchCandidate>| match c {
                Some(x) => Some(candidate_key(x)),
                None => None,
            }),
            match best {
                Some(b) => b < i && is_best_at(keys.take(i as int), b as int),
                None => forall|j: int| 0 <= j < i ==> keys[j] is None,
            },
        decreases candidates@.len() - i,
    {
        let ghost prefix = keys.take(i as int);
        let ghost next = keys.take(i + 1);
        assert(next.len() == i + 1);
        assert(forall|j: int| 0 <= j < i ==> next[j] == prefix[j]);
        assert(next[i as int] == keys[i as int]);
        match &candidates[i] {
            None => {
                assert(keys[i as int] is None);
            },
            Some(c) => {
                assert(keys[i as int] == Some(candidate_key(*c)));
                match best {
                    None => {
                        best = Some(i);
                    },
                    Some(b) => {
                        let cb = match &candidates[b] {
                            Some(x) => x,
                            None => {
                                assert(false);
                                return None;
                            },
                        };
                        assert(keys[b as int] == Some(candidate_key(*cb)));
                        let before = c.min_margin > cb.min_margin || (c.min_margin == cb.min_margin
                            && c.min_percentage > cb.min_percentage) || (c.min_margin == cb.min_margin
                            && c.min_percentage == cb.min_percentage && c.doubled_average > cb.doubled_average) || (
                        c.min_margin == cb.min_margin && c.min_percentage == cb.min_percentage && c.doubled_average
                            == cb.doubled_average && c.last_used < cb.last_used);
                        if before {
                            best = Some(i);
                        }
                    },
                }
            },
        }
        i += 1;
    }
    assert(keys.take(candidates@.len() as int) =~= keys);
    match best {
        Some(b) => {
            proof {
                lemma_best_unique(keys, b as int, choose|k: int| is_best_at(keys, k));
            }
        },
        None => {
            assert(!exists|k: int| is_best_at(keys, k));
            assert forall|j: int| 0 <= j < candidates@.len() implies candidates@[j] is None by {
                assert(keys[j] is None);
            }
        },
    }
    best
}

/// The best position ranks first among the keys: no present key has a larger
/// margin; none with the same margin has a larger smallest percentage; none
/// with the same margin and percentage has a larger average; none equal on
/// all three was used longer ago; and every earlier key is strictly worse.
pub proof fn law_best_position_ranks_first(keys: Seq<Option<(int, int, int, int)>>, b: int)
    requires
        best_position(keys) == Some(b),
    ensures
        0 <= b < keys.len(),
        keys[b] is Some,
        forall|j: int|
            #![trigger keys[j]]
            0 <= j < keys.len() && keys[j] is Some ==> {
                let c = keys[j].unwrap();
                let best = keys[b].unwrap();
                &&& c.0 <= best.0
                &&& c.0 == best.0 ==> c.1 <= best.1
                &&& c.0 == best.0 && c.1 == best.1 ==> c.2 <= best.2
                &&& c.0 == best.0 && c.1 == best.1 && c.2 == best.2 ==> best.3 <= c.3
                &&& j < b ==> c != best
            },
{
    assert(exists|i: int| is_best_at(keys, i));
    assert(is_best_at(keys, b));
    assert forall|j: int| #![trigger keys[j]] 0 <= j < keys.len() && keys[j] is Some implies {
        let c = keys[j].unwrap();
        let best = keys[b].unwrap();
        &&& c.0 <= best.0
        &&& c.0 == best.0 ==> c.1 <= best.1
        &&& c.0 == best.0 && c.1 == best.1 ==> c.2 <= best.2
        &&& c.0 == best.0 && c.1 == best.1 && c.2 == best.2 ==> best.3 <= c.3
        &&& j < b ==> c != best
    } by {
        assert(!ranks_before(keys[j].unwrap(), keys[b].unwrap()));
        if j < b {
            assert(ranks_before(keys[b].unwrap(), keys[j].unwrap()));
        }
    }
}

/// The candidate that `pick_best_candidate` picks ranks first: no candidate
/// has a larger smallest margin over the thresholds; none with the same
/// margin has a larger smallest percentage; none with the same margin and
/// percentage has a larger average; none equal on all three was used longer
/// ago. So of two candidates that tie on margin and percentage, the one with
/// the smaller average is never picked; and nothing is picked only when there
/// is no candidate.
pub proof fn law_pick_best_candidate_ranks_first(candidates: Seq<Option<CodexSwitchCandidate>>, r: Option<usize>)
    requires
        match r {
            Some(j) => best_position(candidates.map_values(|c: Option<CodexSwitchCandidate>| match c {
                Some(x) => Some(candidate_key(x)),
                None => None,
            })) == Some(j as int),
            None => best_position(candidates.map_values(|c: Option<CodexSwitchCandidate>| match c {
                Some(x) => Some(candidate_key(x)),
                None => None,
            })) is None,
        },
        r is None ==> forall|j: int| 0 <= j < candidates.len() ==> candidates[j] is None,
    ensures
        r is None <==> forall|j: int| 0 <= j < candidates.len() ==> candidates[j] is None,
        r matches Some(b) ==> b < candidates.len() && candidates[b as int] is Some,
        r matches Some(b) ==> forall|j: int|
            #![trigger candidates[j]]
            0 <= j < candidates.len() && candidates[j] is Some ==> {
                let c = candidates[j].unwrap();
                let best = candidates[b as int].unwrap();
                &&& c.min_margin <= best.min_margin
                &&& c.min_margin == best.min_margin ==> c.min_percentage <= best.min_percentage
                &&& c.min_margin == best.min_margin && c.min_percentage == best.min_percentage
                    ==> c.doubled_average <= best.doubled_average
                &&& c.min_margin == best.min_margin && c.min_percentage == best.min_percentage
                    && c.doubled_average == best.doubled_average ==> best.last_used <= c.last_used
            },
        forall|i: int, j: int|
            0 <= i < candidates.len() && 0 <= j < candidates.len() && #[trigger] candidates[i] is Some
                && #[trigger] candidates[j] is Some && candidates[i].unwrap().min_margin == candidates[j].unwrap().min_margin
                && candidates[i].unwrap().min_percentage == candidates[j].unwrap().min_percentage
                && candidates[i].unwrap().doubled_average > candidates[j].unwrap().doubled_average
                ==> !(r matches Some(b) && b == j),
{
    let keys = candidates.map_values(|c: Option<CodexSwitchCandidate>| match c {
        Some(x) => Some(candidate_key(x)),
        None => None,
    });
    match r {
        Some(b) => {
            law_best_position_ranks_first(keys, b as int);
            assert(candidates[b as int] is Some);
            assert forall|j: int| #![trigger candidates[j]] 0 <= j < candidates.len() && candidates[j] is Some implies {
                let c = candidates[j].unwrap();
                let best = candidates[b as int].unwrap();
                &&& c.min_margin <= best.min_margin
                &&& c.min_margin == best.min_margin ==> c.min_percentage <= best.min_percentage
                &&& c.min_margin == best.min_margin && c.min_percentage == best.min_percentage
                    ==> c.doubled_average <= best.doubled_average
                &&& c.min_margin == best.min_margin && c.min_percentage == best.min_percentage
                    && c.doubled_average == best.doubled_average ==> best.last_used <= c.last_used
            } by {
                assert(keys[j] == Some(candidate_key(candidates[j].unwrap())));
                assert(keys[b as int] == Some(candidate_key(candidates[b as int].unwrap())));
            }
            assert forall|i: int, j: int|
                0 <= i < candidates.len() && 0 <= j < candidates.len() && #[trigger] candidates[i] is Some
                    && #[trigger] candidates[j] is Some && candidates[i].unwrap().min_margin
                    == candidates[j].unwrap().min_margin && candidates[i].unwrap().min_percentage
                    == candidates[j].unwrap().min_percentage && candidates[i].unwrap().doubled_average
                    > candidates[j].unwrap().doubled_average implies !(r matches Some(b) && b == j) by {
                assert(keys[i] == Some(candidate_key(candidates[i].unwrap())));
                assert(keys[b as int] == Some(candidate_key(candidates[b as int].unwrap())));
            }
        },
        None => {},
    }
}

/// The current account, when the stored current id names one of the accounts.
pub open spec fn current_among(accounts: Seq<CodexAccount>, current: Option<Seq<char>>) -> Option<Seq<char>> {
    match current {
        Some(c) => if account_ids(accounts).contains(c) {
            Some(c)
        } else {
            None
        },
        None => None,
    }
}

/// The position of the first account with id `id`.
pub open spec fn first_with_id(accounts: Seq<CodexAccount>, id: Seq<char>) -> int {
    choose|k: int| 0 <= k < accounts.len() && accounts[k].id@ == id && forall|m: int| 0 <= m < k ==> accounts[m].id@ != id
}

/// Whether some window of the metrics is at or below its threshold.
pub open spec fn any_crossed(ms: Seq<(QuotaWindow, Seq<char>, int)>, primary: int, secondary: int) -> bool {
    exists|k: int| 0 <= k < ms.len() && ms[k].2 <= window_threshold(ms[k].0, primary, secondary)
}

/// The ranking keys of the accounts as switch targets: watched accounts
/// other than the current one that qualify as candidates.
pub open spec fn switch_keys(
    accounts: Seq<CodexAccount>,
    current: Seq<char>,
    primary: int,
    secondary: int,
    scope: Seq<char>,
    selected: Seq<Seq<char>>,
) -> Seq<Option<(int, int, int, int)>> {
    Seq::new(
        accounts.len(),
        |k: int|
            if is_monitored(scope, selected, accounts, accounts[k].id@) && accounts[k].id@ != current {
                switch_candidate(accounts[k], primary, secondary)
            } else {
                None
            },
    )
}

/// What `pick_auto_switch_target_if_needed` picks (a position among the
/// accounts): nothing unless switching is enabled, some account is watched,
/// the current account is watched and one of its windows has crossed its
/// threshold; then the best watched candidate other than it.
pub open spec fn auto_switch_target(
    enabled: bool,
    primary_raw: int,
    secondary_raw: int,
    scope_raw: Seq<char>,
    selected: Seq<Seq<char>>,
    accounts: Seq<CodexAccount>,
    current: Option<Seq<char>>,
) -> Option<int> {
    let p = clamp_percent(primary_raw);
    let s = clamp_percent(secondary_raw);
    let scope = scope_mode(scope_raw);
    if !enabled {
        None
    } else if !exists|k: int| 0 <= k < accounts.len() && is_monitored(scope, selected, accounts, #[trigger] accounts[k].id@) {
        None
    } else {
        match current_among(accounts, current) {
            None => None,
            Some(c) => if !is_monitored(scope, selected, accounts, c) {
                None
            } else {
                let ms = quota_metrics(accounts[first_with_id(accounts, c)].quota);
                if ms.len() == 0 || !any_crossed(ms, p, s) {
                    None
                } else {
                    best_position(switch_keys(accounts, c, p, s, scope, selected))
                }
            },
        }
    }
}

/// The position of the first account with the id, if any.
fn find_account(accounts: &Vec<CodexAccount>, id: &str) -> (r: Option<usize>)
    ensures
        match r {
            Some(k) => k < accounts@.len() && accounts@[k as int].id@ == id@ && forall|m: int|
                0 <= m < k ==> accounts@[m].id@ != id@,
            None => !account_ids(accounts@).contains(id@),
        },
{
    let mut i: usize = 0;
    while i < accounts.len()
        invariant
            i <= accounts@.len(),
            forall|m: int| 0 <= m < i ==> accounts@[m].id@ != id@,
        decreases accounts@.len() - i,
    {
        if crate::text::str_eq(accounts[i].id.as_str(), id) {
            return Some(i);
        }
        i += 1;
    }
    proof {
        if account_ids(accounts@).contains(id@) {
            let k = choose|k: int| 0 <= k < account_ids(accounts@).len() && account_ids(accounts@)[k] == id@;
            assert(accounts@[k].id@ == id@);
        }
    }
    None
}

/// Whether some metric is at or below its threshold.
fn any_metric_crossed(metrics: &Vec<CodexQuotaMetric>, primary_threshold: i32, secondary_threshold: i32) -> (r: bool)
    ensures
        r == any_crossed(
            metrics@.map_values(|m: CodexQuotaMetric| metric_view(m)),
            primary_threshold as int,
            secondary_threshold as int,
        ),
{
    let ghost ms = metrics@.map_values(|m: CodexQuotaMetric| metric_view(m));
    let mut i: usize = 0;
    while i < metrics.len()
        invariant
            i <= metrics@.len(),
            ms == metrics@.map_values(|m: CodexQuotaMetric| metric_view(m)),
            forall|k: int| 0 <= k < i ==> ms[k].2 > window_threshold(ms[k].0, primary_threshold as int, secondary_threshold as int),
        decreases metrics@.len() - i,
    {
        assert(ms[i as int] == metric_view(metrics@[i as int]));
        if metric_crossed_threshold(&metrics[i], primary_threshold, secondary_threshold) {
            return true;
        }
        i += 1;
    }
    false
}

/// `pick_auto_switch_target_if_needed`: with the switching settings
/// (`enabled`, thresholds, scope and selected ids), the accounts and the
/// stored current account id, the account to switch to, if any.
pub fn pick_auto_switch_target_if_needed(
    enabled: bool,
    primary_threshold: i32,
    secondary_threshold: i32,
    account_scope_mode: &str,
    selected_account_ids: &Vec<String>,
    accounts: Vec<CodexAccount>,
    current_account_id: Option<&str>,
) -> (r: Option<CodexAccount>)
    ensures
        match auto_switch_target(
            enabled,
            primary_threshold as int,
            secondary_threshold as int,
            account_scope_mode@,
            strs(selected_account_ids@),
            accounts@,
            opt_ref(current_account_id),
        ) {
            Some(k) => r == Some(accounts@[k]),
            None => r is None,
        },
{
    if !enabled {
        return None;
    }
    let p = normalize_auto_switch_threshold(primary_threshold);
    let s = normalize_auto_switch_threshold(secondary_threshold);
    let scope = normalize_auto_switch_account_scope_mode(account_scope_mode);
    let ghost sel = strs(selected_account_ids@);
    let monitored = resolve_monitored_auto_switch_account_ids(scope.as_str(), selected_account_ids, &accounts);
    if monitored.len() == 0 {
        proof {
            assert forall|k: int| 0 <= k < accounts@.len() implies !is_monitored(scope@, sel, accounts@, #[trigger] accounts@[k].id@) by {
                if is_monitored(scope@, sel, accounts@, accounts@[k].id@) {
                    assert(strs(monitored@).contains(accounts@[k].id@));
                }
            }
        }
        return None;
    }
    proof {
        assert(strs(monitored@)[0] == monitored@[0]@);
        assert(strs(monitored@).contains(monitored@[0]@));
        let id0 = monitored@[0]@;
        assert(is_monitored(scope@, sel, accounts@, id0));
        let k = choose|k: int| 0 <= k < account_ids(accounts@).len() && account_ids(accounts@)[k] == id0;
        assert(accounts@[k].id@ == id0);
    }
    let current_id = match current_account_id {
        Some(c) => c,
        None => {
            return None;
        },
    };
    let ci = match find_account(&accounts, current_id) {
        Some(k) => k,
        None => {
            return None;
        },
    };
    proof {
        assert(account_ids(accounts@)[ci as int] == current_id@);
        assert(current_among(accounts@, opt_ref(current_account_id)) == Some(current_id@));
        let f = first_with_id(accounts@, current_id@);
        assert(0 <= f < accounts@.len() && accounts@[f].id@ == current_id@ && forall|m: int|
            0 <= m < f ==> accounts@[m].id@ != current_id@);
        assert(f == ci as int);
    }
    if !crate::strings::list_contains(&monitored, current_id) {
        return None;
    }
    let metrics = extract_quota_metrics(&accounts[ci]);
    if metrics.len() == 0 {
        return None;
    }
    if !any_metric_crossed(&metrics, p, s) {
        return None;
    }
    let ghost keys = switch_keys(accounts@, current_id@, p as int, s as int, scope@, sel);
    let mut candidates: Vec<Option<CodexSwitchCandidate>> = Vec::new();
    let mut k: usize = 0;
    while k < accounts.len()
        invariant
            k <= accounts@.len(),
            candidates@.len() == k,
            0 <= p <= 100,
            0 <= s <= 100,
            keys == switch_keys(accounts@, current_id@, p as int, s as int, scope@, sel),
            sel == strs(selected_account_ids@),
            forall|id: Seq<char>| strs(monitored@).contains(id) <==> is_monitored(scope@, sel, accounts@, id),
            forall|m: int|
                0 <= m < k ==> (match #[trigger] candidates@[m] {
                    Some(x) => Some(candidate_key(x)),
                    None => None,
                }) == keys[m],
        decreases accounts@.len() - k,
    {
        let a = &accounts[k];
        let watched = crate::strings::list_contains(&monitored, a.id.as_str());
        let other = !crate::text::str_eq(a.id.as_str(), current_id);
        if watched && other {
            candidates.push(build_switch_candidate(a, p, s));
        } else {
            candidates.push(None);
        }
        k += 1;
    }
    assert(candidates@.map_values(|c: Option<CodexSwitchCandidate>| match c {
        Some(x) => Some(candidate_key(x)),
        None => None,
    }) =~= keys);
    let mut accounts = accounts;
    match pick_best_candidate(&candidates) {
        Some(b) => Some(accounts.remove(b)),
        None => None,
    }
}

/// Seconds between two alerts for the same account and thresholds.
pub const CODEX_QUOTA_ALERT_COOLDOWN_SECONDS: i64 = 300;

/// `build_quota_alert_cooldown_key`: `codex:<account>:<primary>:<secondary>`.
pub fn build_quota_alert_cooldown_key(account_id: &str, primary_threshold: i32, secondary_threshold: i32) -> (r: String)
    ensures
        r@ == "codex:"@ + account_id@ + ":"@ + crate::text::int_text(primary_threshold as int) + ":"@
            + crate::text::int_text(secondary_threshold as int),
{
    let a = crate::text::concat("codex:", account_id);
    let b = crate::text::concat(a.as_str(), ":");
    let c = crate::text::concat(b.as_str(), crate::text::i64_text(primary_threshold as i64).as_str());
    let d = crate::text::concat(c.as_str(), ":");
    crate::text::concat(d.as_str(), crate::text::i64_text(secondary_threshold as i64).as_str())
}

/// When each alert was last sent, by cooldown key.
#[derive(Debug)]
pub struct QuotaAlertCooldowns {
    pub entries: Vec<(String, i64)>,
}

impl QuotaAlertCooldowns {
    /// The cooldowns as a map from key to the time of the last alert.
    pub open spec fn view_map(&self) -> Map<Seq<char>, i64> {
        to_map(self.entries@)
    }

    /// No key is recorded twice.
    pub open spec fn well_formed(&self) -> bool {
        keys_unique(self.entries@)
    }

    /// No alert sent yet.
    pub fn new() -> (r: QuotaAlertCooldowns)
        ensures
            r.well_formed(),
            r.view_map() == Map::<Seq<char>, i64>::empty(),
    {
        QuotaAlertCooldowns { entries: Vec::new() }
    }

    /// `should_emit_quota_alert` at time `now`: refused while the last alert
    /// under the key is less than the cooldown old; otherwise allowed, and
    /// `now` recorded as the time of the last alert.
    pub fn should_emit_quota_alert(&mut self, cooldown_key: &str, now: i64) -> (r: bool)
        requires
            old(self).well_formed(),
        ensures
            final(self).well_formed(),
            r == !(old(self).view_map().dom().contains(cooldown_key@) && now - old(self).view_map()[cooldown_key@]
                < CODEX_QUOTA_ALERT_COOLDOWN_SECONDS),
            r ==> final(self).view_map() == old(self).view_map().insert(cooldown_key@, now),
            !r ==> final(self).view_map() == old(self).view_map(),
    {
        match crate::keyed::get_key(&self.entries, cooldown_key) {
            Some(last) => {
                if (now as i128) - (*last as i128) < 300 {
                    return false;
                }
            },
            None => {},
        }
        crate::keyed::insert_key(&mut self.entries, cooldown_key.to_string(), now);
        true
    }

    /// `clear_quota_alert_cooldown`: forgets the last alert of the account
    /// under these thresholds.
    pub fn clear_quota_alert_cooldown(&mut self, account_id: &str, primary_threshold: i32, secondary_threshold: i32)
        requires
            old(self).well_formed(),
        ensures
            final(self).well_formed(),
            final(self).view_map() == old(self).view_map().remove(
                "codex:"@ + account_id@ + ":"@ + crate::text::int_text(primary_threshold as int) + ":"@
                    + crate::text::int_text(secondary_threshold as int),
            ),
    {
        let key = build_quota_alert_cooldown_key(account_id, primary_threshold, secondary_threshold);
        let _ = crate::keyed::remove_key(&mut self.entries, key.as_str());
    }
}

/// Once an alert is sent under a key, another one under the same key is
/// refused until the cooldown has passed.
pub proof fn law_alert_cooldown(before: Map<Seq<char>, i64>, key: Seq<char>, first: i64, second: i64)
    requires
        0 <= second - first < CODEX_QUOTA_ALERT_COOLDOWN_SECONDS,
    ensures
        ({
            let after = before.insert(key, first);
            after.dom().contains(key) && second - after[key] < CODEX_QUOTA_ALERT_COOLDOWN_SECONDS
        }),
{
}

/// The alert raised when the current account runs low.
#[derive(Debug)]
pub struct QuotaAlertPayload {
    pub platform: String,
    pub current_account_id: String,
    pub current_email: String,
    pub threshold: i32,
    pub threshold_display: Option<String>,
    pub lowest_percentage: i32,
    pub low_models: Vec<String>,
    pub recommended_account_id: Option<String>,
    pub recommended_email: Option<String>,
    pub triggered_at: i64,
}

/// The ranking keys of all accounts but the current one as recommendations.
pub open spec fn recommendation_keys(accounts: Seq<CodexAccount>, current: Seq<char>, primary: int, secondary: int) -> Seq<
    Option<(int, int, int, int)>,
> {
    Seq::new(
        accounts.len(),
        |k: int|
            if accounts[k].id@ != current {
                switch_candidate(accounts[k], primary, secondary)
            } else {
                None
            },
    )
}

/// `pick_quota_alert_recommendation`: the best account other than the current one.
pub fn pick_quota_alert_recommendation(
    accounts: &Vec<CodexAccount>,
    current_id: &str,
    primary_threshold: i32,
    secondary_threshold: i32,
) -> (r: Option<usize>)
    requires
        0 <= primary_threshold <= 100,
        0 <= secondary_threshold <= 100,
    ensures
        match r {
            Some(j) => best_position(recommendation_keys(accounts@, current_id@, primary_threshold as int, secondary_threshold as int))
                == Some(j as int),
            None => best_position(recommendation_keys(accounts@, current_id@, primary_threshold as int, secondary_threshold as int))
                is None,
        },
{
    let ghost keys = recommendation_keys(accounts@, current_id@, primary_threshold as int, secondary_threshold as int);
    let mut candidates: Vec<Option<CodexSwitchCandidate>> = Vec::new();
    let mut k: usize = 0;
    while k < accounts.len()
        invariant
            k <= accounts@.len(),
            candidates@.len() == k,
            0 <= primary_threshold <= 100,
            0 <= secondary_threshold <= 100,
            keys == recommendation_keys(accounts@, current_id@, primary_threshold as int, secondary_threshold as int),
            forall|m: int|
                0 <= m < k ==> (match #[trigger] candidates@[m] {
                    Some(x) => Some(candidate_key(x)),
                    None => None,
                }) == keys[m],
        decreases accounts@.len() - k,
    {
        if crate::text::str_eq(accounts[k].id.as_str(), current_id) {
            candidates.push(None);
        } else {
            candidates.push(build_switch_candidate(&accounts[k], primary_threshold, secondary_threshold));
        }
        k += 1;
    }
    assert(candidates@.map_values(|c: Option<CodexSwitchCandidate>| match c {
        Some(x) => Some(candidate_key(x)),
        None => None,
    }) =~= keys);
    pick_best_candidate(&candidates)
}

/// The windows of the metrics at or below their thresholds, in order.
pub open spec fn low_metrics(ms: Seq<(QuotaWindow, Seq<char>, int)>, primary: int, secondary: int) -> Seq<
    (QuotaWindow, Seq<char>, int),
> {
    ms.filter(|m: (QuotaWindow, Seq<char>, int)| m.2 <= window_threshold(m.0, primary, secondary))
}

/// The decision of `run_quota_alert_if_needed` for the current account:
/// `None` when it is not among the accounts or none of its windows is low;
/// otherwise the labels and percentages of its low windows.
pub open spec fn low_windows_of_current(
    accounts: Seq<CodexAccount>,
    current: Option<Seq<char>>,
    primary: int,
    secondary: int,
) -> Option<Seq<(QuotaWindow, Seq<char>, int)>> {
    match current_among(accounts, current) {
        None => None,
        Some(c) => {
            let low = low_metrics(quota_metrics(accounts[first_with_id(accounts, c)].quota), primary, secondary);
            if low.len() == 0 {
                None
            } else {
                Some(low)
            }
        },
    }
}

/// The smallest percentage among the low windows.
pub open spec fn lowest_of(low: Seq<(QuotaWindow, Seq<char>, int)>) -> int {
    min_of(low, percentage_of())
}

/// `run_quota_alert_if_needed` with the alert settings, the accounts, the
/// stored current account id, the time `now` and the cooldowns: the alert
/// to raise, if any. When the current account has no low window its
/// cooldown is cleared; when an alert is due it is recorded.
pub fn run_quota_alert_if_needed(
    enabled: bool,
    primary_threshold_raw: i32,
    secondary_threshold_raw: i32,
    accounts: &Vec<CodexAccount>,
    current_account_id: Option<&str>,
    now: i64,
    cooldowns: &mut QuotaAlertCooldowns,
) -> (r: Option<QuotaAlertPayload>)
    requires
        old(cooldowns).well_formed(),
    ensures
        final(cooldowns).well_formed(),
        !enabled ==> r is None && final(cooldowns).view_map() == old(cooldowns).view_map(),
        enabled ==> match low_windows_of_current(
            accounts@,
            opt_ref(current_account_id),
            clamp_percent(primary_threshold_raw as int),
            clamp_percent(secondary_threshold_raw as int),
        ) {
            None => r is None,
            Some(low) => {
                let p = clamp_percent(primary_threshold_raw as int);
                let s = clamp_percent(secondary_threshold_raw as int);
                let c = opt_ref(current_account_id).unwrap();
                let key = "codex:"@ + c + ":"@ + crate::text::int_text(p) + ":"@ + crate::text::int_text(s);
                let due = !(old(cooldowns).view_map().dom().contains(key) && now - old(cooldowns).view_map()[key]
                    < CODEX_QUOTA_ALERT_COOLDOWN_SECONDS);
                &&& due ==> final(cooldowns).view_map() == old(cooldowns).view_map().insert(key, now)
                &&& !due ==> final(cooldowns).view_map() == old(cooldowns).view_map() && r is None
                &&& due ==> (r matches Some(a) && {
                    &&& a.platform@ == "codex"@
                    &&& a.current_account_id@ == c
                    &&& a.current_email@ == accounts@[first_with_id(accounts@, c)].email@
                    &&& a.threshold == p
                    &&& opt_str(a.threshold_display) == Some(
                        "primary_window<="@ + crate::text::int_text(p) + "%, secondary_window<="@
                            + crate::text::int_text(s) + "%"@,
                    )
                    &&& a.lowest_percentage == lowest_of(low)
                    &&& strs(a.low_models@) == low.map_values(|m: (QuotaWindow, Seq<char>, int)| m.1)
                    &&& match best_position(recommendation_keys(accounts@, c, p, s)) {
                        Some(k) => opt_str(a.recommended_account_id) == Some(accounts@[k].id@) && opt_str(
                            a.recommended_email,
                        ) == Some(accounts@[k].email@),
                        None => a.recommended_account_id is None && a.recommended_email is None,
                    }
                    &&& a.triggered_at == now
                })
            },
        },
{
    if !enabled {
        return None;
    }
    let p = normalize_quota_alert_threshold(primary_threshold_raw);
    let s = normalize_quota_alert_threshold(secondary_threshold_raw);
    let current_id = match current_account_id {
        Some(c) => c,
        None => {
            return None;
        },
    };
    let ci = match find_account(accounts, current_id) {
        Some(k) => k,
        None => {
            return None;
        },
    };
    proof {
        assert(account_ids(accounts@)[ci as int] == current_id@);
        let f = first_with_id(accounts@, current_id@);
        assert(0 <= f < accounts@.len() && accounts@[f].id@ == current_id@ && forall|m: int|
            0 <= m < f ==> accounts@[m].id@ != current_id@);
        assert(f == ci as int);
    }
    let current = &accounts[ci];
    let metrics = extract_quota_metrics(current);
    let ghost ms = metrics@.map_values(|m: CodexQuotaMetric| metric_view(m));
    let ghost pred = |m: (QuotaWindow, Seq<char>, int)| m.2 <= window_threshold(m.0, p as int, s as int);
    let mut low_labels: Vec<String> = Vec::new();
    let mut lowest: i32 = 0;
    let mut found = false;
    let mut i: usize = 0;
    proof {
        reveal(Seq::filter);
        assert(ms.take(0).filter(pred) =~= Seq::<(QuotaWindow, Seq<char>, int)>::empty());
    }
    while i < metrics.len()
        invariant
            i <= metrics@.len(),
            ms == metrics@.map_values(|m: CodexQuotaMetric| metric_view(m)),
            pred == (|m: (QuotaWindow, Seq<char>, int)| m.2 <= window_threshold(m.0, p as int, s as int)),
            strs(low_labels@) == ms.take(i as int).filter(pred).map_values(|m: (QuotaWindow, Seq<char>, int)| m.1),
            found == (ms.take(i as int).filter(pred).len() > 0),
            found ==> lowest as int == min_of(ms.take(i as int).filter(pred), percentage_of()),
        decreases metrics@.len() - i,
    {
        let m = &metrics[i];
        assert(ms[i as int] == metric_view(*m));
        assert(ms.take(i + 1) =~= ms.take(i as int).push(ms[i as int]));
        proof {
            reveal(Seq::filter);
            assert(ms.take(i + 1).drop_last() =~= ms.take(i as int));
            assert(ms.take(i + 1).last() == ms[i as int]);
        }
        if metric_crossed_threshold(m, p, s) {
            let ghost before = strs(low_labels@);
            low_labels.push(m.label.clone());
            assert(strs(low_labels@) =~= before.push(m.label@));
            assert(ms.take(i + 1).filter(pred) == ms.take(i as int).filter(pred).push(ms[i as int]));
            assert(ms.take(i + 1).filter(pred).map_values(|m: (QuotaWindow, Seq<char>, int)| m.1) =~= ms.take(
                i as int,
            ).filter(pred).map_values(|m: (QuotaWindow, Seq<char>, int)| m.1).push(m.label@));
            if !found || m.percentage < lowest {
                lowest = m.percentage;
            }
            assert(ms.take(i + 1).filter(pred).drop_last() =~= ms.take(i as int).filter(pred));
            found = true;
        } else {
            assert(ms.take(i + 1).filter(pred) == ms.take(i as int).filter(pred));
        }
        i += 1;
    }
    assert(ms.take(metrics@.len() as int) =~= ms);
    assert(low_metrics(ms, p as int, s as int) == ms.filter(pred));
    if !found {
        cooldowns.clear_quota_alert_cooldown(current_id, p, s);
        return None;
    }
    let key = build_quota_alert_cooldown_key(current_id, p, s);
    if !cooldowns.should_emit_quota_alert(key.as_str(), now) {
        return None;
    }
    let recommendation = pick_quota_alert_recommendation(accounts, current_id, p, s);
    let (recommended_account_id, recommended_email) = match recommendation {
        Some(k) => (Some(accounts[k].id.clone()), Some(accounts[k].email.clone())),
        None => (None, None),
    };
    let d1 = crate::text::concat("primary_window<=", crate::text::i64_text(p as i64).as_str());
    let d2 = crate::text::concat(d1.as_str(), "%, secondary_window<=");
    let d3 = crate::text::concat(d2.as_str(), crate::text::i64_text(s as i64).as_str());
    let display = crate::text::concat(d3.as_str(), "%");
    let ghost low = low_metrics(ms, p as int, s as int);
    assert(ms == quota_metrics(accounts@[first_with_id(accounts@, current_id@)].quota));
    assert(low.len() > 0);
    assert(lowest as int == lowest_of(low));
    assert(strs(low_labels@) == low.map_values(|m: (QuotaWindow, Seq<char>, int)| m.1));
    assert(account_ids(accounts@)[ci as int] == current_id@);
    assert(current_among(accounts@, opt_ref(current_account_id)) == Some(current_id@));
    assert(low_windows_of_current(accounts@, opt_ref(current_account_id), p as int, s as int) == Some(low));
    let payload = QuotaAlertPayload {
            platform: "codex".to_string(),
            current_account_id: current_id.to_string(),
            current_email: current.email.clone(),
            threshold: p,
            threshold_display: Some(display),
            lowest_percentage: lowest,
            low_models: low_labels,
            recommended_account_id,
            recommended_email,
            triggered_at: now,
        };
    assert(payload.platform@ == "codex"@);
    assert(payload.current_account_id@ == current_id@);
    assert(payload.threshold == p);
    assert(opt_str(payload.threshold_display) == Some(
        "primary_window<="@ + crate::text::int_text(p as int) + "%, secondary_window<="@
            + crate::text::int_text(s as int) + "%"@,
    ));
    assert(match best_position(recommendation_keys(accounts@, current_id@, p as int, s as int)) {
        Some(k) => opt_str(payload.recommended_account_id) == Some(accounts@[k].id@) && opt_str(
            payload.recommended_email,
        ) == Some(accounts@[k].email@),
        None => payload.recommended_account_id is None && payload.recommended_email is None,
    });
    Some(payload
    )
}

// ---------------------------------------------------------------------------
// Expiry of tokens
// ---------------------------------------------------------------------------

/// The `exp` claim (seconds) of a token whose second part is its payload,
/// when it is an integer that fits in an `i64`.
pub open spec fn jwt_exp(token: Seq<char>) -> Option<i64> {
    let parts = split_char(token, '.');
    if parts.len() < 2 {
        None
    } else {
        match base64_url_decode(parts[1]) {
            Err(_) => None,
            Ok(b) => match json_from_bytes(b) {
                Err(_) => None,
                Ok(p) => match json_member(p, "exp"@) {
                    None => None,
                    Some(m) => match json_integer(m) {
                        Some(t) => crate::text::parse_i64_spec(t),
                        None => None,
                    },
                },
            },
        }
    }
}

/// `decode_jwt_exp`: the `exp` claim of a token, in seconds.
pub fn decode_jwt_exp(token: &str) -> (r: Option<i64>)
    ensures
        r == jwt_exp(token@),
{
    let parts = crate::text::split_on_char(&crate::text::chars_of(token), '.');
    proof {
        assert(parts@.map_values(|p: Vec<char>| p@).len() == parts@.len());
    }
    if parts.len() < 2 {
        return None;
    }
    assert(parts@.map_values(|p: Vec<char>| p@)[1] == parts@[1]@);
    let middle = crate::text::string_of(&parts[1]);
    let bytes = match decode_base64_url(middle.as_str()) {
        Ok(b) => b,
        Err(_) => {
            return None;
        },
    };
    let payload = match parse_json_bytes(&bytes) {
        Ok(p) => p,
        Err(_) => {
            return None;
        },
    };
    let member = match json_get_member(payload.as_str(), "exp") {
        Some(m) => m,
        None => {
            return None;
        },
    };
    match json_as_integer_text(member.as_str()) {
        Some(t) => crate::text::parse_i64_chars(&crate::text::chars_of(t.as_str())),
        None => None,
    }
}

// ---------------------------------------------------------------------------
// Where Codex keeps its files
// ---------------------------------------------------------------------------

/// `s` without the characters `c` at either end.
pub open spec fn trim_char(s: Seq<char>, c: char) -> Seq<char> {
    crate::platform_package::strip_start_char(trim_end_char(s, c), c)
}

/// What `resolve_codex_home_from_env` gives for the value of `CODEX_HOME`:
/// the value trimmed and unquoted, or nothing when blank.
pub open spec fn codex_home_from_env(raw: Option<Seq<char>>) -> Option<Seq<char>> {
    match raw {
        None => None,
        Some(r) => if trim(r).len() == 0 {
            None
        } else {
            let unquoted = trim(trim_char(trim_char(trim(r), '"'), '\''));
            if unquoted.len() == 0 {
                None
            } else {
                Some(unquoted)
            }
        },
    }
}

/// `trim_matches(c)`.
fn trim_char_exec(v: &[char], c: char) -> (r: Vec<char>)
    ensures
        r@ == trim_char(v@, c),
{
    let e = trim_end_char_exec(v, c);
    crate::platform_package::strip_start_char_exec(&e, c)
}

/// `resolve_codex_home_from_env` for the value of `CODEX_HOME`.
pub fn resolve_codex_home_from_env(raw: Option<&str>) -> (r: Option<String>)
    ensures
        opt_str(r) == codex_home_from_env(opt_ref(raw)),
{
    let raw = match raw {
        Some(v) => v,
        None => {
            return None;
        },
    };
    let t = crate::text::trimmed(raw);
    if t.len() == 0 {
        return None;
    }
    let a = trim_char_exec(&t, '"');
    let b = trim_char_exec(&a, '\'');
    let u = crate::text::trim_chars(&b);
    if u.len() == 0 {
        None
    } else {
        Some(crate::text::string_of(&u))
    }
}

/// `get_codex_home` with the value of `CODEX_HOME` and the home directory.
pub fn get_codex_home(codex_home_env: Option<&str>, home_dir: &str) -> (r: String)
    ensures
        r@ == match codex_home_from_env(opt_ref(codex_home_env)) {
            Some(h) => h,
            None => crate::platform_package::path_join(home_dir@, ".codex"@),
        },
{
    match resolve_codex_home_from_env(codex_home_env) {
        Some(h) => h,
        None => crate::platform_package::join_path(home_dir, ".codex"),
    }
}

/// `get_auth_json_path`: `auth.json` in the Codex home.
pub fn get_auth_json_path(codex_home_env: Option<&str>, home_dir: &str) -> (r: String)
    ensures
        r@ == crate::platform_package::path_join(
            match codex_home_from_env(opt_ref(codex_home_env)) {
                Some(h) => h,
                None => crate::platform_package::path_join(home_dir@, ".codex"@),
            },
            "auth.json"@,
        ),
{
    let home = get_codex_home(codex_home_env, home_dir);
    crate::platform_package::join_path(home.as_str(), "auth.json")
}

// ---------------------------------------------------------------------------
// The account index
// ---------------------------------------------------------------------------

/// The position of the first summary with id `id`, looking from `i` on.
pub open spec fn summary_position(accounts: Seq<CodexAccountSummary>, id: Seq<char>, i: int) -> Option<int>
    decreases accounts.len() - i,
{
    if i < 0 || i >= accounts.len() {
        None
    } else if accounts[i].id@ == id {
        Some(i)
    } else {
        summary_position(accounts, id, i + 1)
    }
}

/// The position of the first summary with the id.
pub(crate) fn find_summary(accounts: &Vec<CodexAccountSummary>, id: &str) -> (r: Option<usize>)
    ensures
        match r {
            Some(k) => summary_position(accounts@, id@, 0) == Some(k as int) && k < accounts@.len()
                && accounts@[k as int].id@ == id@,
            None => summary_position(accounts@, id@, 0) is None,
        },
{
    let mut i: usize = 0;
    while i < accounts.len()
        invariant
            i <= accounts@.len(),
            summary_position(accounts@, id@, 0) == summary_position(accounts@, id@, i as int),
        decreases accounts@.len() - i,
    {
        if crate::text::str_eq(accounts[i].id.as_str(), id) {
            assert(summary_position(accounts@, id@, i as int) == Some(i as int));
            return Some(i);
        }
        i += 1;
    }
    None
}

/// An optional string copied as it is.
pub(crate) fn copy_opt(o: &Option<String>) -> (r: Option<String>)
    ensures
        r == *o,
{
    match o {
        Some(x) => Some(x.clone()),
        None => None,
    }
}

/// A summary copied as it is.
fn clone_summary(s: &CodexAccountSummary) -> (r: CodexAccountSummary)
    ensures
        r == *s,
{
    CodexAccountSummary {
        id: s.id.clone(),
        email: s.email.clone(),
        plan_type: copy_opt(&s.plan_type),
        subscription_active_until: copy_opt(&s.subscription_active_until),
        created_at: s.created_at,
        last_used: s.last_used,
    }
}

/// `update_account_plan_type_in_index`: the plan and subscription end of the
/// account's summary are replaced. Returns whether the index changed (and is
/// to be saved).
pub fn update_account_plan_type_in_index(
    index: &mut CodexAccountIndex,
    account_id: &str,
    plan_type: &Option<String>,
    subscription_active_until: &Option<String>,
) -> (changed: bool)
    ensures
        changed == (summary_position(old(index).accounts@, account_id@, 0) is Some),
        final(index).accounts@.len() == old(index).accounts@.len(),
        final(index).current_account_id == old(index).current_account_id,
        match summary_position(old(index).accounts@, account_id@, 0) {
            Some(k) => {
                &&& forall|j: int| 0 <= j < old(index).accounts@.len() && j != k ==> final(index).accounts@[j]
                    == old(index).accounts@[j]
                &&& final(index).accounts@[k].id == old(index).accounts@[k].id
                &&& final(index).accounts@[k].email == old(index).accounts@[k].email
                &&& final(index).accounts@[k].created_at == old(index).accounts@[k].created_at
                &&& final(index).accounts@[k].last_used == old(index).accounts@[k].last_used
                &&& final(index).accounts@[k].plan_type == *plan_type
                &&& final(index).accounts@[k].subscription_active_until == *subscription_active_until
            },
            None => final(index).accounts@ == old(index).accounts@,
        },
{
    match find_summary(&index.accounts, account_id) {
        Some(k) => {
            let old_summary = &index.accounts[k];
            let updated = CodexAccountSummary {
                id: old_summary.id.clone(),
                email: old_summary.email.clone(),
                plan_type: copy_opt(plan_type),
                subscription_active_until: copy_opt(subscription_active_until),
                created_at: old_summary.created_at,
                last_used: old_summary.last_used,
            };
            index.accounts.set(k, updated);
            true
        },
        None => false,
    }
}

/// Whether a summary is kept when account `id` is removed.
pub open spec fn keeps_summary(id: Seq<char>) -> spec_fn(CodexAccountSummary) -> bool {
    |s: CodexAccountSummary| s.id@ != id
}

/// The summaries that do not name account `id`, in order.
fn summaries_without(summaries: &Vec<CodexAccountSummary>, account_id: &str) -> (r: Vec<CodexAccountSummary>)
    ensures
        r@ == summaries@.filter(keeps_summary(account_id@)),
{
    let ghost keep = keeps_summary(account_id@);
    let mut kept: Vec<CodexAccountSummary> = Vec::new();
    let mut i: usize = 0;
    proof {
        reveal(Seq::filter);
        assert(summaries@.take(0).filter(keep) =~= Seq::<CodexAccountSummary>::empty());
    }
    while i < summaries.len()
        invariant
            i <= summaries@.len(),
            keep == keeps_summary(account_id@),
            kept@ == summaries@.take(i as int).filter(keep),
        decreases summaries@.len() - i,
    {
        proof {
            reveal(Seq::filter);
            assert(summaries@.take(i + 1).drop_last() =~= summaries@.take(i as int));
            assert(summaries@.take(i + 1).last() == summaries@[i as int]);
        }
        if !crate::text::str_eq(summaries[i].id.as_str(), account_id) {
            kept.push(clone_summary(&summaries[i]));
        }
        i += 1;
    }
    assert(summaries@.take(summaries@.len() as int) =~= summaries@);
    kept
}

/// `remove_account` on the index and the loaded accounts: the account's
/// summary leaves the index, it stops being current, and API key accounts
/// bound to it are unbound. Returns, for each account, whether it changed
/// (and is to be saved).
pub fn remove_account(index: &mut CodexAccountIndex, accounts: &mut Vec<CodexAccount>, account_id: &str) -> (changed: Vec<
    bool,
>)
    ensures
        final(index).accounts@ == old(index).accounts@.filter(keeps_summary(account_id@)),
        opt_str(final(index).current_account_id) == if opt_str(old(index).current_account_id) == Some(account_id@) {
            None
        } else {
            opt_str(old(index).current_account_id)
        },
        final(accounts)@.len() == old(accounts)@.len(),
        forall|k: int|
            0 <= k < old(accounts)@.len() ==> {
                &&& opt_str(old(accounts)@[k].bound_oauth_account_id) == Some(account_id@) ==> final(accounts)@[k].bound_oauth_account_id is None
                &&& opt_str(old(accounts)@[k].bound_oauth_account_id) != Some(account_id@) ==> final(accounts)@[k].bound_oauth_account_id
                    == old(accounts)@[k].bound_oauth_account_id
                &&& final(accounts)@[k].id == old(accounts)@[k].id
                &&& final(accounts)@[k].tokens == old(accounts)@[k].tokens
                &&& final(accounts)@[k].email == old(accounts)@[k].email
            },
        changed@.len() == old(accounts)@.len(),
        forall|k: int|
            0 <= k < old(accounts)@.len() ==> (changed@[k] <==> opt_str(old(accounts)@[k].bound_oauth_account_id) == Some(
                account_id@,
            )),
{
    let kept = summaries_without(&index.accounts, account_id);
    index.accounts = kept;
    let is_current = match &index.current_account_id {
        Some(c) => crate::text::str_eq(c.as_str(), account_id),
        None => false,
    };
    if is_current {
        index.current_account_id = None;
    }
    let ghost before = accounts@;
    let mut changed: Vec<bool> = Vec::new();
    let mut k: usize = 0;
    while k < accounts.len()
        invariant
            k <= accounts@.len(),
            accounts@.len() == before.len(),
            forall|j: int|
                0 <= j < k ==> {
                    &&& opt_str(before[j].bound_oauth_account_id) == Some(account_id@) ==> accounts@[j].bound_oauth_account_id is None
                    &&& opt_str(before[j].bound_oauth_account_id) != Some(account_id@) ==> accounts@[j].bound_oauth_account_id
                        == before[j].bound_oauth_account_id
                    &&& accounts@[j].id == before[j].id
                    &&& accounts@[j].tokens == before[j].tokens
                    &&& accounts@[j].email == before[j].email
                },
            forall|j: int| k <= j < before.len() ==> accounts@[j] == before[j],
            changed@.len() == k,
            forall|j: int| 0 <= j < k ==> (changed@[j] <==> opt_str(before[j].bound_oauth_account_id) == Some(account_id@)),
        decreases accounts@.len() - k,
    {
        let bound = match &accounts[k].bound_oauth_account_id {
            Some(b) => crate::text::str_eq(b.as_str(), account_id),
            None => false,
        };
        if bound {
            let mut a = accounts.remove(k);
            a.bound_oauth_account_id = None;
            accounts.insert(k, a);
        }
        changed.push(bound);
        k += 1;
    }
    changed
}

/// The summaries whose id is none of `ids`.
pub open spec fn summary_outside(ids: Seq<Seq<char>>) -> spec_fn(CodexAccountSummary) -> bool {
    |s: CodexAccountSummary| !ids.contains(s.id@)
}

/// Whether an optional bound id names one of `ids`.
pub open spec fn bound_to_one_of(bound: Option<Seq<char>>, ids: Seq<Seq<char>>) -> bool {
    match bound {
        Some(b) => ids.contains(b),
        None => false,
    }
}

proof fn lemma_push_contains(ids: Seq<Seq<char>>, id: Seq<char>, x: Seq<char>)
    ensures
        ids.push(id).contains(x) <==> (ids.contains(x) || x == id),
{
    if ids.contains(x) {
        let j = choose|j: int| 0 <= j < ids.len() && ids[j] == x;
        assert(ids.push(id)[j] == x);
    }
    if x == id {
        assert(ids.push(id)[ids.len() as int] == x);
    }
    if ids.push(id).contains(x) {
        let j = choose|j: int| 0 <= j < ids.len() + 1 && ids.push(id)[j] == x;
        if j < ids.len() {
            assert(ids[j] == x);
        }
    }
}

proof fn lemma_filter_outside_push(s: Seq<CodexAccountSummary>, ids: Seq<Seq<char>>, id: Seq<char>)
    ensures
        s.filter(summary_outside(ids)).filter(keeps_summary(id)) == s.filter(summary_outside(ids.push(id))),
    decreases s.len(),
{
    reveal(Seq::filter);
    if s.len() > 0 {
        let rest = s.drop_last();
        let x = s.last();
        lemma_filter_outside_push(rest, ids, id);
        lemma_push_contains(ids, id, x.id@);
        let f = rest.filter(summary_outside(ids));
        assert(f.push(x).drop_last() =~= f);
        assert(f.push(x).last() == x);
    } else {
        assert(s.filter(summary_outside(ids)) =~= Seq::<CodexAccountSummary>::empty());
    }
}

/// `remove_accounts`: `remove_account` for each id in turn. The summaries
/// of the ids leave the index and no other does; the current account is
/// cleared when it is one of them; API key accounts bound to one of them
/// are unbound, keeping their id, tokens and email. Returns, for each
/// account, whether it changed (and is to be saved).
pub fn remove_accounts(index: &mut CodexAccountIndex, accounts: &mut Vec<CodexAccount>, account_ids: &Vec<String>) -> (changed:
    Vec<bool>)
    ensures
        final(index).accounts@ == old(index).accounts@.filter(summary_outside(strs(account_ids@))),
        opt_str(final(index).current_account_id) == if bound_to_one_of(
            opt_str(old(index).current_account_id),
            strs(account_ids@),
        ) {
            None
        } else {
            opt_str(old(index).current_account_id)
        },
        final(accounts)@.len() == old(accounts)@.len(),
        changed@.len() == old(accounts)@.len(),
        forall|k: int|
            0 <= k < old(accounts)@.len() ==> #[trigger] unbound_from(
                old(accounts)@[k],
                final(accounts)@[k],
                changed@[k],
                strs(account_ids@),
            ),
{
    let ghost ids = strs(account_ids@);
    let ghost start = accounts@;
    let ghost start_index = index.accounts@;
    let ghost start_current = opt_str(index.current_account_id);
    let mut changed: Vec<bool> = Vec::new();
    let mut k: usize = 0;
    while k < accounts.len()
        invariant
            k <= accounts@.len(),
            changed@.len() == k,
            forall|j: int| 0 <= j < k ==> !changed@[j],
        decreases accounts@.len() - k,
    {
        changed.push(false);
        k += 1;
    }
    assert(start_index.filter(summary_outside(ids.take(0))) =~= start_index) by {
        reveal(Seq::filter);
        lemma_filter_all(start_index, ids.take(0));
    }
    let mut i: usize = 0;
    while i < account_ids.len()
        invariant
            i <= account_ids@.len(),
            ids == strs(account_ids@),
            start.len() == accounts@.len(),
            changed@.len() == start.len(),
            index.accounts@ == start_index.filter(summary_outside(ids.take(i as int))),
            opt_str(index.current_account_id) == if bound_to_one_of(start_current, ids.take(i as int)) {
                None
            } else {
                start_current
            },
            forall|k: int|
                0 <= k < start.len() ==> #[trigger] unbound_from(start[k], accounts@[k], changed@[k], ids.take(i as int)),
        decreases account_ids@.len() - i,
    {
        let ghost id = ids[i as int];
        assert(account_ids@[i as int]@ == id);
        assert(ids.take(i + 1) =~= ids.take(i as int).push(id));
        let ghost prev_accounts = accounts@;
        let ghost prev_changed = changed@;
        let step = remove_account(index, accounts, account_ids[i].as_str());
        let mut merged: Vec<bool> = Vec::new();
        let mut k: usize = 0;
        while k < changed.len()
            invariant
                k <= changed@.len(),
                changed@ == prev_changed,
                step@.len() == changed@.len(),
                merged@.len() == k,
                forall|j: int| 0 <= j < k ==> (merged@[j] <==> (prev_changed[j] || step@[j])),
            decreases changed@.len() - k,
        {
            let c = changed[k];
            let st = step[k];
            merged.push(c || st);
            assert(merged@[k as int] == (c || st));
            k += 1;
        }
        assert(merged@.len() == prev_changed.len());
        changed = merged;
        proof {
            lemma_filter_outside_push(start_index, ids.take(i as int), id);
            let prev_ids = ids.take(i as int);
            match start_current {
                Some(c) => lemma_push_contains(prev_ids, id, c),
                None => {},
            }
            assert forall|k: int| 0 <= k < start.len() implies #[trigger] unbound_from(
                start[k],
                accounts@[k],
                changed@[k],
                ids.take(i + 1),
            ) by {
                assert(unbound_from(start[k], prev_accounts[k], prev_changed[k], prev_ids));
                assert(prev_accounts.len() == start.len());
                assert(prev_changed[k] <==> bound_to_one_of(opt_str(start[k].bound_oauth_account_id), prev_ids));
                assert(step@[k] <==> opt_str(prev_accounts[k].bound_oauth_account_id) == Some(id));
                assert(changed@[k] <==> (prev_changed[k] || step@[k]));
                match opt_str(start[k].bound_oauth_account_id) {
                    Some(b) => {
                        lemma_push_contains(prev_ids, id, b);
                    },
                    None => {},
                }
            }
        }
        i += 1;
    }
    assert(ids.take(ids.len() as int) =~= ids);
    changed
}

/// Account `now` is account `before` with its binding cleared when it named
/// one of `ids` (`changed` says so), and otherwise the same binding, id,
/// tokens and email.
pub open spec fn unbound_from(before: CodexAccount, now: CodexAccount, changed: bool, ids: Seq<Seq<char>>) -> bool {
    &&& bound_to_one_of(opt_str(before.bound_oauth_account_id), ids) ==> now.bound_oauth_account_id is None
    &&& !bound_to_one_of(opt_str(before.bound_oauth_account_id), ids) ==> now.bound_oauth_account_id
        == before.bound_oauth_account_id
    &&& now.id == before.id
    &&& now.tokens == before.tokens
    &&& now.email == before.email
    &&& (changed <==> bound_to_one_of(opt_str(before.bound_oauth_account_id), ids))
}

proof fn lemma_filter_all(s: Seq<CodexAccountSummary>, ids: Seq<Seq<char>>)
    requires
        ids.len() == 0,
    ensures
        s.filter(summary_outside(ids)) == s,
    decreases s.len(),
{
    reveal(Seq::filter);
    if s.len() > 0 {
        lemma_filter_all(s.drop_last(), ids);
        assert(s.drop_last().push(s.last()) =~= s);
    } else {
        assert(s.filter(summary_outside(ids)) =~= s);
    }
}

/// The accounts that could be loaded, in the order of the index.
pub open spec fn loaded_accounts(loaded: Seq<Result<Option<CodexAccount>, String>>) -> Seq<CodexAccount>
    decreases loaded.len(),
{
    if loaded.len() == 0 {
        Seq::empty()
    } else {
        let rest = loaded_accounts(loaded.drop_last());
        match loaded.last() {
            Ok(Some(a)) => rest.push(a),
            _ => rest,
        }
    }
}

/// `list_accounts`, given what loading each summary of the index gave: the
/// accounts that could be read, in order.
pub fn list_accounts(loaded: Vec<Result<Option<CodexAccount>, String>>) -> (r: Vec<CodexAccount>)
    ensures
        r@ == loaded_accounts(loaded@),
{
    let ghost all = loaded@;
    let total = loaded.len();
    let mut rest = loaded;
    let mut r: Vec<CodexAccount> = Vec::new();
    let mut i: usize = 0;
    assert(all.take(0) =~= Seq::<Result<Option<CodexAccount>, String>>::empty());
    while rest.len() > 0
        invariant
            total == all.len(),
            i + rest@.len() == all.len(),
            rest@ == all.skip(i as int),
            r@ == loaded_accounts(all.take(i as int)),
        decreases rest@.len(),
    {
        let item = rest.remove(0);
        assert(all.take(i + 1).drop_last() =~= all.take(i as int));
        assert(all.take(i + 1).last() == all[i as int]);
        assert(item == all[i as int]);
        match item {
            Ok(Some(a)) => {
                r.push(a);
            },
            _ => {},
        }
        assert(rest@ =~= all.skip(i + 1));
        i += 1;
    }
    assert(all.take(all.len() as int) =~= all);
    r
}

/// The failure line of a summary that could not be loaded.
pub open spec fn failure_line(id: Seq<char>, l: Result<Option<CodexAccount>, String>) -> Option<Seq<char>> {
    match l {
        Ok(Some(_)) => None,
        Ok(None) => Some(id + ": 详情文件不存在"@),
        Err(e) => Some(id + ": "@ + e@),
    }
}

/// The failure lines of the summaries, in order.
pub open spec fn failure_lines(summaries: Seq<CodexAccountSummary>, loaded: Seq<Result<Option<CodexAccount>, String>>, n: int) -> Seq<
    Seq<char>,
>
    decreases n,
{
    if n <= 0 {
        Seq::empty()
    } else {
        let rest = failure_lines(summaries, loaded, n - 1);
        match failure_line(summaries[n - 1].id@, loaded[n - 1]) {
            Some(f) => rest.push(f),
            None => rest,
        }
    }
}

/// Texts joined with a separator.
pub open spec fn joined(parts: Seq<Seq<char>>, sep: Seq<char>) -> Seq<char>
    decreases parts.len(),
{
    if parts.len() == 0 {
        Seq::empty()
    } else if parts.len() == 1 {
        parts[0]
    } else {
        joined(parts.drop_last(), sep) + sep + parts.last()
    }
}

/// `list_accounts_checked`, given the index and what loading each of its
/// summaries gave: the accounts that could be read, or an error when the
/// index lists accounts and none could be read.
pub fn list_accounts_checked(index: &CodexAccountIndex, loaded: Vec<Result<Option<CodexAccount>, String>>) -> (r: Result<
    Vec<CodexAccount>,
    String,
>)
    requires
        loaded@.len() == index.accounts@.len(),
    ensures
        (index.accounts@.len() > 0 && loaded_accounts(loaded@).len() == 0) ==> (r matches Err(m) && m@
            == "Codex 账号索引中有 "@ + nat_digits(index.accounts@.len()) + " 个账号，但详情文件均无法读取；已保留前端缓存，请从账号备份或本地账号文件恢复。"@
            + joined(failure_lines(index.accounts@, loaded@, index.accounts@.len() as int), "; "@)),
        !(index.accounts@.len() > 0 && loaded_accounts(loaded@).len() == 0) ==> (r matches Ok(v) && v@
            == loaded_accounts(loaded@)),
{
    let ghost all = loaded@;
    let total = loaded.len();
    let mut rest = loaded;
    let mut accounts: Vec<CodexAccount> = Vec::new();
    let mut failed = String::new();
    let mut any_failed = false;
    let mut i: usize = 0;
    assert(all.take(0) =~= Seq::<Result<Option<CodexAccount>, String>>::empty());
    while rest.len() > 0
        invariant
            total == all.len(),
            i + rest@.len() == all.len(),
            all.len() == index.accounts@.len(),
            rest@ == all.skip(i as int),
            accounts@ == loaded_accounts(all.take(i as int)),
            any_failed == (failure_lines(index.accounts@, all, i as int).len() > 0),
            failed@ == joined(failure_lines(index.accounts@, all, i as int), "; "@),
        decreases rest@.len(),
    {
        let item = rest.remove(0);
        assert(all.take(i + 1).drop_last() =~= all.take(i as int));
        assert(all.take(i + 1).last() == all[i as int]);
        assert(item == all[i as int]);
        let id = &index.accounts[i].id;
        let line: Option<String> = match item {
            Ok(Some(a)) => {
                accounts.push(a);
                None
            },
            Ok(None) => Some(crate::text::concat(id.as_str(), ": 详情文件不存在")),
            Err(e) => {
                let p = crate::text::concat(id.as_str(), ": ");
                Some(crate::text::concat(p.as_str(), e.as_str()))
            },
        };
        let ghost fl = failure_lines(index.accounts@, all, i as int);
        proof {
            assert(failure_line(index.accounts@[i as int].id@, all[i as int]) == match line {
                Some(l) => Some(l@),
                None => None,
            });
            match &line {
                Some(l) => {
                    assert(failure_lines(index.accounts@, all, i + 1) == fl.push(l@));
                    assert(fl.push(l@).drop_last() =~= fl);
                },
                None => {
                    assert(failure_lines(index.accounts@, all, i + 1) == fl);
                },
            }
        }
        match line {
            Some(l) => {
                if any_failed {
                    let with_sep = crate::text::concat(failed.as_str(), "; ");
                    failed = crate::text::concat(with_sep.as_str(), l.as_str());
                } else {
                    failed = l;
                }
                any_failed = true;
            },
            None => {},
        }
        assert(rest@ =~= all.skip(i + 1));
        i += 1;
    }
    assert(all.take(all.len() as int) =~= all);
    if index.accounts.len() > 0 && accounts.len() == 0 {
        let n = crate::text::u64_text(index.accounts.len() as u64);
        let a = crate::text::concat("Codex 账号索引中有 ", n.as_str());
        let b = crate::text::concat(
            a.as_str(),
            " 个账号，但详情文件均无法读取；已保留前端缓存，请从账号备份或本地账号文件恢复。",
        );
        return Err(crate::text::concat(b.as_str(), failed.as_str()));
    }
    Ok(accounts)
}

/// `get_current_account`, given the index and the loaded current account:
/// the current account, when the index names one.
pub fn get_current_account(index: &CodexAccountIndex, loaded_current: Option<CodexAccount>) -> (r: Option<CodexAccount>)
    ensures
        r == if index.current_account_id is Some {
            loaded_current
        } else {
            None
        },
{
    if index.current_account_id.is_none() {
        return None;
    }
    loaded_current
}

impl CodexAccount {
    /// A new API key account of the provider, created at `now`.
    pub fn new_api_key(
        id: String,
        email: String,
        api_key: String,
        mode: CodexApiProviderMode,
        base_url: Option<String>,
        provider_id: Option<String>,
        provider_name: Option<String>,
        now: i64,
    ) -> (r: CodexAccount)
        ensures
            r.id == id && r.email == email,
            r.auth_mode == CodexAuthMode::Apikey,
            r.openai_api_key == Some(api_key),
            r.api_provider_mode == mode,
            r.api_base_url == base_url && r.api_provider_id == provider_id && r.api_provider_name == provider_name,
            r.plan_type is None && r.account_name is None && r.subscription_active_until is None,
            r.created_at == now && r.last_used == now,
    {
        let tokens = CodexTokens { id_token: String::new(), access_token: String::new(), refresh_token: None };
        let mut r = CodexAccount::new(id, email, tokens, now);
        r.auth_mode = CodexAuthMode::Apikey;
        r.openai_api_key = Some(api_key);
        r.api_provider_mode = mode;
        r.api_base_url = base_url;
        r.api_provider_id = provider_id;
        r.api_provider_name = provider_name;
        r
    }

    /// The account was used at `now`.
    pub fn update_last_used(&mut self, now: i64)
        ensures
            *final(self) == (CodexAccount { last_used: now, ..*old(self) }),
    {
        self.last_used = now;
    }
}

/// The summary the index keeps of an account.
pub open spec fn summary_of(a: CodexAccount) -> CodexAccountSummary {
    CodexAccountSummary {
        id: a.id,
        email: a.email,
        plan_type: a.plan_type,
        subscription_active_until: a.subscription_active_until,
        created_at: a.created_at,
        last_used: a.last_used,
    }
}

/// The summary of an account, taking the creation time from `previous`.
pub open spec fn refreshed_summary(a: CodexAccount, previous: CodexAccountSummary) -> CodexAccountSummary {
    CodexAccountSummary { created_at: previous.created_at, ..summary_of(a) }
}

/// The index after recording the account: its summary (by id) refreshed,
/// or a new summary appended.
pub open spec fn recorded(accounts: Seq<CodexAccountSummary>, a: CodexAccount) -> Seq<CodexAccountSummary> {
    match summary_position(accounts, a.id@, 0) {
        Some(k) => accounts.update(k, refreshed_summary(a, accounts[k])),
        None => accounts.push(summary_of(a)),
    }
}

proof fn lemma_position_bounds(accounts: Seq<CodexAccountSummary>, id: Seq<char>, i: int)
    ensures
        summary_position(accounts, id, i) matches Some(k) ==> i <= k < accounts.len() && accounts[k].id@ == id
            && forall|j: int| i <= j < k ==> (#[trigger] accounts[j]).id@ != id,
        summary_position(accounts, id, i) is None ==> forall|j: int|
            0 <= i <= j < accounts.len() ==> (#[trigger] accounts[j]).id@ != id,
    decreases accounts.len() - i,
{
    if 0 <= i < accounts.len() && accounts[i].id@ != id {
        lemma_position_bounds(accounts, id, i + 1);
    }
}

proof fn lemma_position_by_scan(accounts: Seq<CodexAccountSummary>, id: Seq<char>, i: int, k: int)
    requires
        0 <= i <= k < accounts.len(),
        accounts[k].id@ == id,
        forall|j: int| i <= j < k ==> (#[trigger] accounts[j]).id@ != id,
    ensures
        summary_position(accounts, id, i) == Some(k),
    decreases k - i,
{
    if i < k {
        lemma_position_by_scan(accounts, id, i + 1, k);
    }
}

proof fn lemma_position_none_by_scan(accounts: Seq<CodexAccountSummary>, id: Seq<char>, i: int)
    requires
        0 <= i <= accounts.len(),
        forall|j: int| i <= j < accounts.len() ==> (#[trigger] accounts[j]).id@ != id,
    ensures
        summary_position(accounts, id, i) is None,
    decreases accounts.len() - i,
{
    if i < accounts.len() {
        lemma_position_none_by_scan(accounts, id, i + 1);
    }
}

/// Recording an account in the index: the index then finds the account by
/// its id, with its summary (keeping the creation time of an entry it
/// already had); it grows by one entry exactly when the account was not
/// listed; and every other id is found where it was, with its summary.
pub proof fn law_recorded_then_found(accounts: Seq<CodexAccountSummary>, a: CodexAccount, other: Seq<char>)
    requires
        other != a.id@,
    ensures
        summary_position(recorded(accounts, a), a.id@, 0) matches Some(k) && recorded(accounts, a)[k] == match summary_position(
            accounts,
            a.id@,
            0,
        ) {
            Some(j) => refreshed_summary(a, accounts[j]),
            None => summary_of(a),
        },
        recorded(accounts, a).len() == accounts.len() + (if summary_position(accounts, a.id@, 0) is Some {
            0int
        } else {
            1int
        }),
        summary_position(recorded(accounts, a), other, 0) == summary_position(accounts, other, 0),
        summary_position(accounts, other, 0) matches Some(j) ==> recorded(accounts, a)[j] == accounts[j],
{
    let after = recorded(accounts, a);
    lemma_position_bounds(accounts, a.id@, 0);
    lemma_position_bounds(accounts, other, 0);
    match summary_position(accounts, a.id@, 0) {
        Some(k) => {
            assert forall|j: int| 0 <= j < k implies (#[trigger] after[j]).id@ != a.id@ by {
                assert(after[j] == accounts[j]);
            }
            lemma_position_by_scan(after, a.id@, 0, k);
            match summary_position(accounts, other, 0) {
                Some(j) => {
                    assert(j != k);
                    assert forall|x: int| 0 <= x < j implies (#[trigger] after[x]).id@ != other by {
                        if x != k {
                            assert(after[x] == accounts[x]);
                        }
                    }
                    lemma_position_by_scan(after, other, 0, j);
                },
                None => {
                    assert forall|x: int| 0 <= x < after.len() implies (#[trigger] after[x]).id@ != other by {
                        if x != k {
                            assert(after[x] == accounts[x]);
                        }
                    }
                    lemma_position_none_by_scan(after, other, 0);
                },
            }
        },
        None => {
            let n = accounts.len() as int;
            assert forall|j: int| 0 <= j < n implies (#[trigger] after[j]).id@ != a.id@ by {
                assert(after[j] == accounts[j]);
            }
            lemma_position_by_scan(after, a.id@, 0, n);
            match summary_position(accounts, other, 0) {
                Some(j) => {
                    assert forall|x: int| 0 <= x < j implies (#[trigger] after[x]).id@ != other by {
                        assert(after[x] == accounts[x]);
                    }
                    lemma_position_by_scan(after, other, 0, j);
                },
                None => {
                    assert forall|x: int| 0 <= x < after.len() implies (#[trigger] after[x]).id@ != other by {
                        if x < n {
                            assert(after[x] == accounts[x]);
                        }
                    }
                    lemma_position_none_by_scan(after, other, 0);
                },
            }
        },
    }
}

/// Records the account in the index.
fn record_summary(accounts: &mut Vec<CodexAccountSummary>, a: &CodexAccount)
    ensures
        final(accounts)@ == recorded(old(accounts)@, *a),
{
    match find_summary(accounts, a.id.as_str()) {
        Some(k) => {
            let created_at = accounts[k].created_at;
            accounts.set(
                k,
                CodexAccountSummary {
                    id: a.id.clone(),
                    email: a.email.clone(),
                    plan_type: copy_opt(&a.plan_type),
                    subscription_active_until: copy_opt(&a.subscription_active_until),
                    created_at,
                    last_used: a.last_used,
                },
            );
        },
        None => {
            accounts.push(
                CodexAccountSummary {
                    id: a.id.clone(),
                    email: a.email.clone(),
                    plan_type: copy_opt(&a.plan_type),
                    subscription_active_until: copy_opt(&a.subscription_active_until),
                    created_at: a.created_at,
                    last_used: a.last_used,
                },
            );
        },
    }
}

/// What `upsert_api_key_account` is refused for, if anything: the
/// credentials' complaint, then the provider's.
pub open spec fn api_key_upsert_error(
    api_key: Seq<char>,
    api_base_url: Option<Seq<char>>,
    mode: Option<CodexApiProviderMode>,
    provider_id: Option<Seq<char>>,
    provider_name: Option<Seq<char>>,
) -> Option<Seq<char>> {
    match checked_credentials(api_key, api_base_url) {
        Err(e) => Some(e),
        Ok(c) => match resolved_provider(c.1, mode, provider_id, provider_name) {
            Err(e) => Some(e),
            Ok(_) => None,
        },
    }
}

/// The id an API key account is stored under, from its checked key.
pub open spec fn api_key_id(key: Seq<char>) -> Seq<char> {
    "codex_apikey_"@ + hex_text(md5_digest(key))
}

/// What storing an API key login does when the credentials and the
/// provider pass: the account `a` holds the checked key, its email and
/// provider, and is stored under the key's id (or the loaded account's
/// when the index lists the id), keeping the loaded account's other fields;
/// the index `after` records it.
pub open spec fn api_key_upserted(
    before: Seq<CodexAccountSummary>,
    after: Seq<CodexAccountSummary>,
    loaded_existing: Option<CodexAccount>,
    api_key: Seq<char>,
    api_base_url: Option<Seq<char>>,
    api_provider_mode: Option<CodexApiProviderMode>,
    api_provider_id: Option<Seq<char>>,
    api_provider_name: Option<Seq<char>>,
    now: i64,
    a: CodexAccount,
) -> bool {
    let k = checked_credentials(api_key, api_base_url)->Ok_0.0;
    let p = resolved_provider(
        checked_credentials(api_key, api_base_url)->Ok_0.1,
        api_provider_mode,
        api_provider_id,
        api_provider_name,
    )->Ok_0;
    let id = api_key_id(k);
    let existing = summary_position(before, id, 0) is Some;
    &&& a.auth_mode == CodexAuthMode::Apikey
    &&& opt_str(a.openai_api_key) == Some(k)
    &&& a.email@ == "api-key-"@ + hex_text(md5_digest(k)).take(8)
    &&& (a.api_provider_mode, opt_str(a.api_base_url), opt_str(a.api_provider_id), opt_str(a.api_provider_name)) == p
    &&& a.last_used == now
    &&& (!existing || loaded_existing is None) ==> a.id@ == id
    &&& existing && loaded_existing is Some ==> a.id == loaded_existing->Some_0.id
    &&& existing && loaded_existing is Some ==> api_key_fields_set(a, loaded_existing->Some_0, k, p)
    &&& !existing ==> a.created_at == now && opt_str(a.plan_type) == Some("API_KEY"@)
    &&& after == recorded(
        if existing {
            before
        } else {
            before.push(summary_of(a))
        },
        a,
    )
}

/// `upsert_api_key_account` on the index, at time `now`: stores an API key
/// account under the id derived from the key. `loaded_existing` is the
/// account loaded for that id (none when it could not be loaded); it is
/// used when the index already lists the id. Returns the account to save.
pub fn upsert_api_key_account(
    index: &mut CodexAccountIndex,
    loaded_existing: Option<CodexAccount>,
    api_key: String,
    api_base_url: Option<String>,
    api_provider_mode: Option<CodexApiProviderMode>,
    api_provider_id: Option<String>,
    api_provider_name: Option<String>,
    now: i64,
) -> (r: Result<CodexAccount, String>)
    ensures
        match api_key_upsert_error(api_key@, opt_str(api_base_url), api_provider_mode, opt_str(api_provider_id), opt_str(api_provider_name)) {
            Some(e) => r matches Err(m) && m@ == e && final(index).accounts@ == old(index).accounts@,
            None => r matches Ok(a) && api_key_upserted(
                old(index).accounts@,
                final(index).accounts@,
                loaded_existing,
                api_key@,
                opt_str(api_base_url),
                api_provider_mode,
                opt_str(api_provider_id),
                opt_str(api_provider_name),
                now,
                a,
            ) && final(index).current_account_id == old(index).current_account_id,
        },
{
    let (key, base) = validate_api_key_credentials(api_key.as_str(), match &api_base_url {
        Some(b) => Some(b.as_str()),
        None => None,
    })?;
    let provider_config = resolve_api_provider_config(
        match &base {
            Some(b) => Some(b.as_str()),
            None => None,
        },
        api_provider_mode,
        match &api_provider_id {
            Some(v) => Some(v.as_str()),
            None => None,
        },
        match &api_provider_name {
            Some(v) => Some(v.as_str()),
            None => None,
        },
    )?;
    let ghost pv = provider_view(provider_config);
    assert(pv == resolved_provider(
        checked_credentials(api_key@, opt_str(api_base_url))->Ok_0.1,
        api_provider_mode,
        opt_str(api_provider_id),
        opt_str(api_provider_name),
    )->Ok_0);
    let account_id = build_api_key_account_id(key.as_str());
    let existing = find_summary(&index.accounts, account_id.as_str());
    let mut account = match existing {
        Some(pos) => {
            let existing_id = index.accounts[pos].id.clone();
            let mut acc = match loaded_existing {
                Some(a) => a,
                None => CodexAccount::new_api_key(
                    existing_id,
                    build_api_key_email(key.as_str()),
                    key.clone(),
                    provider_config.mode,
                    copy_opt(&provider_config.base_url),
                    copy_opt(&provider_config.provider_id),
                    copy_opt(&provider_config.provider_name),
                    now,
                ),
            };
            apply_api_key_fields(&mut acc, key.as_str(), provider_config);
            if crate::text::trimmed(acc.email.as_str()).len() == 0 {
                acc.email = build_api_key_email(key.as_str());
            }
            acc.update_last_used(now);
            acc
        },
        None => {
            let email = build_api_key_email(key.as_str());
            let mut acc = CodexAccount::new_api_key(
                account_id,
                email,
                key,
                provider_config.mode,
                provider_config.base_url,
                provider_config.provider_id,
                provider_config.provider_name,
                now,
            );
            acc.plan_type = Some("API_KEY".to_string());
            index.accounts.push(
                CodexAccountSummary {
                    id: acc.id.clone(),
                    email: acc.email.clone(),
                    plan_type: copy_opt(&acc.plan_type),
                    subscription_active_until: copy_opt(&acc.subscription_active_until),
                    created_at: acc.created_at,
                    last_used: acc.last_used,
                },
            );
            acc
        },
    };
    account.auth_mode = CodexAuthMode::Apikey;
    record_summary(&mut index.accounts, &account);
    assert(account.auth_mode == CodexAuthMode::Apikey);
    assert(account.last_used == now);
    assert((account.api_provider_mode, opt_str(account.api_base_url), opt_str(account.api_provider_id), opt_str(account.api_provider_name)) == pv);
    Ok(account)
}

/// The index after an account changed id from `old_id`: the summary of
/// `old_id` now describes the account (keeping its creation time), or a
/// summary is appended; the current account follows the change.
pub open spec fn renamed_in_index(accounts: Seq<CodexAccountSummary>, old_id: Seq<char>, a: CodexAccount) -> Seq<
    CodexAccountSummary,
> {
    match summary_position(accounts, old_id, 0) {
        Some(k) => accounts.update(k, refreshed_summary(a, accounts[k])),
        None => accounts.push(summary_of(a)),
    }
}

/// `update_api_key_credentials` on the account loaded for `account_id` and
/// the index, at time `now`: checks the new key and provider, moves the
/// account to the id of the new key (refused when another account has it),
/// and records it in the index. Returns the account to save and its former
/// id (whose file is to be deleted when it differs).
pub fn update_api_key_credentials(
    account_id: &str,
    loaded: Option<CodexAccount>,
    index: &mut CodexAccountIndex,
    api_key: String,
    api_base_url: Option<String>,
    api_provider_mode: Option<CodexApiProviderMode>,
    api_provider_id: Option<String>,
    api_provider_name: Option<String>,
    now: i64,
) -> (r: Result<(CodexAccount, String), String>)
    ensures
        r is Err ==> final(index).accounts@ == old(index).accounts@ && final(index).current_account_id
            == old(index).current_account_id,
        match loaded {
            None => r matches Err(m) && m@ == missing_account(account_id@),
            Some(acc) => if acc.auth_mode != CodexAuthMode::Apikey {
                r matches Err(m) && m@ == "仅 API Key 账号支持编辑凭据"@
            } else {
                match api_key_upsert_error(
                    api_key@,
                    opt_str(api_base_url),
                    api_provider_mode,
                    opt_str(api_provider_id),
                    opt_str(api_provider_name),
                ) {
                    Some(e) => r matches Err(m) && m@ == e,
                    None => {
                        let k = checked_credentials(api_key@, opt_str(api_base_url))->Ok_0.0;
                        let p = resolved_provider(
                            checked_credentials(api_key@, opt_str(api_base_url))->Ok_0.1,
                            api_provider_mode,
                            opt_str(api_provider_id),
                            opt_str(api_provider_name),
                        )->Ok_0;
                        let new_id = "codex_apikey_"@ + hex_text(md5_digest(k));
                        if new_id != acc.id@ && summary_position(old(index).accounts@, new_id, 0) is Some {
                            r matches Err(m) && m@ == "该 API Key 已存在，请直接使用已有账号"@
                        } else {
                            r matches Ok(pair) && {
                                let a = pair.0;
                                &&& pair.1 == acc.id
                                &&& a.id@ == new_id
                                &&& a.auth_mode == CodexAuthMode::Apikey
                                &&& opt_str(a.openai_api_key) == Some(k)
                                &&& (a.api_provider_mode, opt_str(a.api_base_url), opt_str(a.api_provider_id), opt_str(
                                    a.api_provider_name,
                                )) == p
                                &&& a.email@ == "api-key-"@ + hex_text(md5_digest(k)).take(8)
                                &&& a.last_used == now
                                &&& a.created_at == acc.created_at
                                &&& api_key_fields_set(a, CodexAccount { id: a.id, ..acc }, k, p)
                                &&& final(index).accounts@ == renamed_in_index(old(index).accounts@, acc.id@, a)
                                &&& opt_str(final(index).current_account_id) == if opt_str(old(index).current_account_id)
                                    == Some(acc.id@) {
                                    Some(a.id@)
                                } else {
                                    opt_str(old(index).current_account_id)
                                }
                            }
                        }
                    },
                }
            },
        },
{
    let mut account = match loaded {
        Some(a) => a,
        None => {
            return Err(crate::text::concat("账号不存在: ", account_id));
        },
    };
    if !account.is_api_key_auth() {
        return Err("仅 API Key 账号支持编辑凭据".to_string());
    }
    let (key, base) = validate_api_key_credentials(api_key.as_str(), match &api_base_url {
        Some(b) => Some(b.as_str()),
        None => None,
    })?;
    let provider_config = resolve_api_provider_config(
        match &base {
            Some(b) => Some(b.as_str()),
            None => None,
        },
        api_provider_mode,
        match &api_provider_id {
            Some(v) => Some(v.as_str()),
            None => None,
        },
        match &api_provider_name {
            Some(v) => Some(v.as_str()),
            None => None,
        },
    )?;
    let old_id = account.id.clone();
    let new_id = build_api_key_account_id(key.as_str());
    let changes_id = !crate::text::str_eq(new_id.as_str(), old_id.as_str());
    if changes_id && find_summary(&index.accounts, new_id.as_str()).is_some() {
        return Err("该 API Key 已存在，请直接使用已有账号".to_string());
    }
    if changes_id {
        account.id = new_id;
    } else {
        proof {
            assert(account.id@ == new_id@);
        }
    }
    apply_api_key_fields(&mut account, key.as_str(), provider_config);
    account.update_last_used(now);
    match find_summary(&index.accounts, old_id.as_str()) {
        Some(k) => {
            let created_at = index.accounts[k].created_at;
            index.accounts.set(
                k,
                CodexAccountSummary {
                    id: account.id.clone(),
                    email: account.email.clone(),
                    plan_type: copy_opt(&account.plan_type),
                    subscription_active_until: copy_opt(&account.subscription_active_until),
                    created_at,
                    last_used: account.last_used,
                },
            );
        },
        None => {
            index.accounts.push(
                CodexAccountSummary {
                    id: account.id.clone(),
                    email: account.email.clone(),
                    plan_type: copy_opt(&account.plan_type),
                    subscription_active_until: copy_opt(&account.subscription_active_until),
                    created_at: account.created_at,
                    last_used: account.last_used,
                },
            );
        },
    }
    let was_current = match &index.current_account_id {
        Some(c) => crate::text::str_eq(c.as_str(), old_id.as_str()),
        None => false,
    };
    if was_current {
        index.current_account_id = Some(account.id.clone());
    }
    Ok((account, old_id))
}

// ---------------------------------------------------------------------------
// Organizations and identities in access tokens
// ---------------------------------------------------------------------------

/// The claims that may name the organization, in the order they are read.
pub open spec fn org_keys() -> Seq<Seq<char>> {
    seq![
        "organization_id"@,
        "chatgpt_organization_id"@,
        "chatgpt_org_id"@,
        "org_id"@,
        "poid"@,
        "POID"@,
    ]
}

/// The first organization claim from key `i` on that holds a non-blank string.
pub open spec fn org_from_keys(auth: Seq<char>, i: int) -> Option<Seq<char>>
    decreases 6 - i,
{
    if i < 0 || i >= 6 {
        None
    } else {
        match json_text_field(auth, org_keys()[i]) {
            Some(v) => Some(v),
            None => org_from_keys(auth, i + 1),
        }
    }
}

/// Whether an organization entry is marked as the default one.
pub open spec fn is_default_org(org: Option<Seq<char>>) -> bool {
    match org {
        Some(o) => match json_member(o, "is_default"@) {
            Some(m) => json_bool(m) == Some(true),
            None => false,
        },
        None => false,
    }
}

/// The position of the first default organization from `i` on, among `n`.
pub open spec fn default_org_position(orgs: Seq<char>, n: usize, i: usize) -> Option<usize>
    decreases n - i,
{
    if i >= n {
        None
    } else if is_default_org(json_item(orgs, i)) {
        Some(i)
    } else {
        default_org_position(orgs, n, (i + 1) as usize)
    }
}

/// The id of an organization entry, trimmed and not blank.
pub open spec fn org_entry_id(org: Option<Seq<char>>) -> Option<Seq<char>> {
    match org {
        Some(o) => json_text_field(o, "id"@),
        None => None,
    }
}

/// What `extract_chatgpt_organization_id_from_access_token` gives: an
/// organization claim, else the id of the default organization, else the
/// id of the first one.
pub open spec fn access_token_org_id(token: Seq<char>) -> Option<Seq<char>> {
    match jwt_payload(token) {
        None => None,
        Some(p) => match json_member(p, auth_claim()) {
            None => None,
            Some(a) => match org_from_keys(a, 0) {
                Some(v) => Some(v),
                None => match json_member(a, "organizations"@) {
                    None => None,
                    Some(orgs) => match json_array_len(orgs) {
                        None => None,
                        Some(n) => {
                            let from_default = match default_org_position(orgs, n, 0) {
                                Some(d) => org_entry_id(json_item(orgs, d)),
                                None => None,
                            };
                            match from_default {
                                Some(v) => Some(v),
                                None => if n > 0 {
                                    org_entry_id(json_item(orgs, 0))
                                } else {
                                    None
                                },
                            }
                        },
                    },
                },
            },
        },
    }
}

/// `extract_chatgpt_organization_id_from_access_token`.
pub fn extract_chatgpt_organization_id_from_access_token(access_token: &str) -> (r: Option<String>)
    ensures
        opt_str(r) == access_token_org_id(access_token@),
{
    let payload = match jwt_payload_text(access_token) {
        Some(p) => p,
        None => {
            return None;
        },
    };
    let auth = match json_get_member(payload.as_str(), "https://api.openai.com/auth") {
        Some(a) => a,
        None => {
            return None;
        },
    };
    let keys: [&str; 6] = ["organization_id", "chatgpt_organization_id", "chatgpt_org_id", "org_id", "poid", "POID"];
    assert(keys@.map_values(|k: &str| k@) =~= org_keys());
    let mut i: usize = 0;
    while i < 6
        invariant
            i <= 6,
            keys@.map_values(|k: &str| k@) == org_keys(),
            jwt_payload(access_token@) == Some(payload@),
            json_member(payload@, auth_claim()) == Some(auth@),
            org_from_keys(auth@, 0) == org_from_keys(auth@, i as int),
        decreases 6 - i,
    {
        assert(keys@.map_values(|k: &str| k@)[i as int] == keys@[i as int]@);
        match json_text_member(auth.as_str(), keys[i]) {
            Some(v) => {
                return Some(v);
            },
            None => {},
        }
        i += 1;
    }
    let orgs = match json_get_member(auth.as_str(), "organizations") {
        Some(o) => o,
        None => {
            return None;
        },
    };
    let n = match json_array_length(orgs.as_str()) {
        Some(n) => n,
        None => {
            return None;
        },
    };
    let mut d: usize = 0;
    let mut found: Option<usize> = None;
    while d < n && found.is_none()
        invariant
            d <= n,
            found is None ==> default_org_position(orgs@, n, 0) == default_org_position(orgs@, n, d),
            found matches Some(k) ==> default_org_position(orgs@, n, 0) == Some(k) && k < n,
        decreases n - d + (if found is None { 1int } else { 0int }),
    {
        let item = json_get_item(orgs.as_str(), d);
        let is_default = match &item {
            Some(o) => match json_get_member(o.as_str(), "is_default") {
                Some(m) => match json_as_bool(m.as_str()) {
                    Some(b) => b,
                    None => false,
                },
                None => false,
            },
            None => false,
        };
        if is_default {
            found = Some(d);
        } else {
            d += 1;
        }
    }
    let from_default = match found {
        Some(k) => match json_get_item(orgs.as_str(), k) {
            Some(o) => json_text_member(o.as_str(), "id"),
            None => None,
        },
        None => None,
    };
    match from_default {
        Some(v) => Some(v),
        None => {
            if n > 0 {
                match json_get_item(orgs.as_str(), 0) {
                    Some(o) => json_text_member(o.as_str(), "id"),
                    None => None,
                }
            } else {
                None
            }
        },
    }
}

/// The identity an access token carries: email, user id, plan, end of the
/// subscription, account id and organization id.
pub open spec fn access_token_identity(token: Seq<char>) -> (
    Option<Seq<char>>,
    Option<Seq<char>>,
    Option<Seq<char>>,
    Option<Seq<char>>,
    Option<Seq<char>>,
    Option<Seq<char>>,
) {
    match jwt_payload(token) {
        None => (None, None, None, None, None, None),
        Some(p) => {
            let auth = json_member(p, auth_claim());
            let email = first_some(
                json_text_field(p, "email"@),
                match json_member(p, profile_claim()) {
                    Some(pr) => json_text_field(pr, "email"@),
                    None => None,
                },
            );
            let user_id = first_some(
                match auth {
                    Some(a) => first_some(json_text_field(a, "chatgpt_user_id"@), json_text_field(a, "user_id"@)),
                    None => None,
                },
                json_text_field(p, "sub"@),
            );
            let plan = match auth {
                Some(a) => json_text_field(a, "chatgpt_plan_type"@),
                None => None,
            };
            let sub = match auth {
                Some(a) => json_scalar_field(a, "chatgpt_subscription_active_until"@),
                None => None,
            };
            (email, user_id, plan, sub, access_token_account_id(token), access_token_org_id(token))
        },
    }
}

/// The identity read from tokens, as stored on an OAuth account.
#[derive(Debug)]
pub struct OAuthIdentity {
    pub user_id: Option<String>,
    pub plan_type: Option<String>,
    pub subscription_active_until: Option<String>,
    pub account_id: Option<String>,
    pub organization_id: Option<String>,
}

/// `extract_access_token_identity`: email and identity of an access token.
pub fn extract_access_token_identity(access_token: &str) -> (r: (Option<String>, OAuthIdentity))
    ensures
        (opt_str(r.0), opt_str(r.1.user_id), opt_str(r.1.plan_type), opt_str(r.1.subscription_active_until), opt_str(
            r.1.account_id,
        ), opt_str(r.1.organization_id)) == access_token_identity(access_token@),
{
    let none = OAuthIdentity {
        user_id: None,
        plan_type: None,
        subscription_active_until: None,
        account_id: None,
        organization_id: None,
    };
    let payload = match jwt_payload_text(access_token) {
        Some(p) => p,
        None => {
            return (None, none);
        },
    };
    let auth = json_get_member(payload.as_str(), "https://api.openai.com/auth");
    let email = match json_text_member(payload.as_str(), "email") {
        Some(e) => Some(e),
        None => match json_get_member(payload.as_str(), "https://api.openai.com/profile") {
            Some(pr) => json_text_member(pr.as_str(), "email"),
            None => None,
        },
    };
    let from_auth = match &auth {
        Some(a) => match json_text_member(a.as_str(), "chatgpt_user_id") {
            Some(u) => Some(u),
            None => json_text_member(a.as_str(), "user_id"),
        },
        None => None,
    };
    let user_id = match from_auth {
        Some(u) => Some(u),
        None => json_text_member(payload.as_str(), "sub"),
    };
    let plan_type = match &auth {
        Some(a) => json_text_member(a.as_str(), "chatgpt_plan_type"),
        None => None,
    };
    let subscription_active_until = match &auth {
        Some(a) => json_scalar_member(a.as_str(), "chatgpt_subscription_active_until"),
        None => None,
    };
    let identity = OAuthIdentity {
        user_id,
        plan_type,
        subscription_active_until,
        account_id: extract_chatgpt_account_id_from_access_token(access_token),
        organization_id: extract_chatgpt_organization_id_from_access_token(access_token),
    };
    (email, identity)
}

/// The ids an account is known by, for each loaded account.
pub open spec fn id_pairs(loaded: Seq<Option<CodexAccount>>) -> Seq<Option<(Option<String>, Option<String>)>> {
    loaded.map_values(
        |o: Option<CodexAccount>|
            match o {
                Some(a) => Some((a.account_id, a.organization_id)),
                None => None,
            },
    )
}

/// The ids of the loaded accounts, copied.
fn loaded_id_pairs(loaded: &Vec<Option<CodexAccount>>) -> (r: Vec<Option<(Option<String>, Option<String>)>>)
    ensures
        r@ == id_pairs(loaded@),
{
    let mut r: Vec<Option<(Option<String>, Option<String>)>> = Vec::new();
    let mut i: usize = 0;
    while i < loaded.len()
        invariant
            i <= loaded@.len(),
            r@ == id_pairs(loaded@).take(i as int),
        decreases loaded@.len() - i,
    {
        let item = match &loaded[i] {
            Some(a) => Some((copy_opt(&a.account_id), copy_opt(&a.organization_id))),
            None => None,
        };
        r.push(item);
        assert(id_pairs(loaded@).take(i + 1) =~= id_pairs(loaded@).take(i as int).push(id_pairs(loaded@)[i as int]));
        i += 1;
    }
    assert(id_pairs(loaded@).take(loaded@.len() as int) =~= id_pairs(loaded@));
    r
}

/// The id an OAuth login is stored under: the stored account it belongs
/// to, else the id its identity gives.
pub open spec fn oauth_target_id(
    accounts: Seq<CodexAccountSummary>,
    loaded: Seq<Option<CodexAccount>>,
    email: Seq<char>,
    account_id: Option<Seq<char>>,
    organization_id: Option<Seq<char>>,
) -> Seq<char> {
    match existing_account(accounts, id_pairs(loaded), email, account_id, organization_id) {
        Some(i) => i,
        None => "codex_"@ + hex_text(md5_digest(storage_seed(email, account_id, organization_id))),
    }
}

/// The identity fields of an OAuth login, as text: user id, plan, end of
/// the subscription, account id and organization id.
pub open spec fn identity_view(i: OAuthIdentity) -> (
    Option<Seq<char>>,
    Option<Seq<char>>,
    Option<Seq<char>>,
    Option<Seq<char>>,
    Option<Seq<char>>,
) {
    (
        opt_str(i.user_id),
        opt_str(i.plan_type),
        opt_str(i.subscription_active_until),
        opt_str(i.account_id),
        opt_str(i.organization_id),
    )
}

/// What every OAuth upsert sets on the account it stores.
pub open spec fn oauth_fields_set(
    a: CodexAccount,
    tokens: CodexTokens,
    ident: (Option<Seq<char>>, Option<Seq<char>>, Option<Seq<char>>, Option<Seq<char>>, Option<Seq<char>>),
    now: i64,
) -> bool {
    &&& a.tokens.id_token == tokens.id_token
    &&& a.tokens.access_token == tokens.access_token
    &&& a.auth_mode == CodexAuthMode::Oauth
    &&& a.openai_api_key is None && a.api_base_url is None
    &&& a.api_provider_mode == CodexApiProviderMode::OpenaiBuiltin
    &&& a.api_provider_id is None && a.api_provider_name is None
    &&& a.bound_oauth_account_id is None
    &&& opt_str(a.user_id) == ident.0 && opt_str(a.plan_type) == ident.1
    &&& opt_str(a.subscription_active_until) == ident.2
    &&& opt_str(a.account_id) == ident.3 && opt_str(a.organization_id) == ident.4
    &&& a.token_updated_at == Some(now) && a.token_source_mode@ == "managed"@
    &&& !a.requires_reauth && a.reauth_reason is None
    &&& a.last_used == now
}

/// What storing an OAuth login does: `r` is the account saved, `before` and
/// `after` the index entries around the call, `loaded[k]` the account file
/// of entry `k`.
pub open spec fn oauth_upserted(
    before: Seq<CodexAccountSummary>,
    after: Seq<CodexAccountSummary>,
    loaded: Seq<Option<CodexAccount>>,
    email: Seq<char>,
    ident: (Option<Seq<char>>, Option<Seq<char>>, Option<Seq<char>>, Option<Seq<char>>, Option<Seq<char>>),
    tokens: CodexTokens,
    account_note: Option<String>,
    now: i64,
    r: CodexAccount,
) -> bool {
    let target = oauth_target_id(before, loaded, email, ident.3, ident.4);
    &&& oauth_fields_set(r, tokens, ident, now)
    &&& match summary_position(before, target, 0) {
        Some(k) => {
            &&& match loaded[k] {
                Some(b) => {
                    &&& r.id == b.id && r.email == b.email && r.created_at == b.created_at && r.tags == b.tags
                    &&& opt_str(r.tokens.refresh_token) == first_some(
                        normalized_opt(opt_str(tokens.refresh_token)),
                        normalized_opt(opt_str(b.tokens.refresh_token)),
                    )
                    &&& r.token_generation == if b.token_generation < u64::MAX {
                        (b.token_generation + 1) as u64
                    } else {
                        u64::MAX
                    }
                    &&& account_note is None ==> r.account_note == b.account_note
                },
                None => {
                    &&& r.id == before[k].id && r.email@ == email && r.created_at == now
                    &&& opt_str(r.tokens.refresh_token) == normalized_opt(opt_str(tokens.refresh_token))
                    &&& account_note is None ==> r.account_note is None
                },
            }
            &&& account_note is Some ==> r.account_note == account_note
            &&& after == recorded(before, r)
        },
        None => {
            &&& r.id@ == target
            &&& r.email@ == email && r.created_at == now && r.token_generation == 1
            &&& opt_str(r.tokens.refresh_token) == normalized_opt(opt_str(tokens.refresh_token))
            &&& r.account_note == account_note
            &&& after == recorded(before.push(summary_of(r)), r)
        },
    }
}

/// Stores an OAuth login in the index, at time `now`: the account it
/// belongs to (the loaded account of the matching summary, `loaded[k]`
/// standing for summary `k`) gets the new tokens, keeping its refresh token
/// when the login has none, and the identity; or a new account is created.
/// A note replaces the stored one when given. Returns the account to save.
pub fn upsert_oauth_account(
    index: &mut CodexAccountIndex,
    loaded: Vec<Option<CodexAccount>>,
    email: String,
    identity: OAuthIdentity,
    tokens: CodexTokens,
    account_note: Option<String>,
    now: i64,
) -> (r: CodexAccount)
    requires
        loaded@.len() == old(index).accounts@.len(),
    ensures
        oauth_upserted(
            old(index).accounts@,
            final(index).accounts@,
            loaded@,
            email@,
            identity_view(identity),
            tokens,
            account_note,
            now,
            r,
        ),
        final(index).current_account_id == old(index).current_account_id,
{
    let pairs = loaded_id_pairs(&loaded);
    let existing_id = match find_existing_account_id(
        index,
        &pairs,
        email.as_str(),
        match &identity.account_id {
            Some(v) => Some(v.as_str()),
            None => None,
        },
        match &identity.organization_id {
            Some(v) => Some(v.as_str()),
            None => None,
        },
    ) {
        Some(id) => id,
        None => build_account_storage_id(
            email.as_str(),
            match &identity.account_id {
                Some(v) => Some(v.as_str()),
                None => None,
            },
            match &identity.organization_id {
                Some(v) => Some(v.as_str()),
                None => None,
            },
        ),
    };
    assert(existing_id@ == oauth_target_id(
        index.accounts@,
        loaded@,
        email@,
        opt_str(identity.account_id),
        opt_str(identity.organization_id),
    ));
    let pos = find_summary(&index.accounts, existing_id.as_str());
    let ghost loaded_before = loaded@;
    let mut loaded = loaded;
    let OAuthIdentity { user_id, plan_type, subscription_active_until, account_id, organization_id } = identity;
    let mut account = match pos {
        Some(k) => {
            let summary_id = index.accounts[k].id.clone();
            let mut acc = match loaded.remove(k) {
                Some(a) => a,
                None => CodexAccount::new(
                    summary_id,
                    email,
                    CodexTokens {
                        id_token: tokens.id_token.clone(),
                        access_token: tokens.access_token.clone(),
                        refresh_token: copy_opt(&tokens.refresh_token),
                    },
                    now,
                ),
            };
            let kept = retain_existing_refresh_token_if_missing(tokens, Some(&acc));
            acc.tokens = kept;
            mark_token_chain_updated_at(&mut acc, now);
            match account_note {
                Some(n) => {
                    acc.account_note = Some(n);
                },
                None => {},
            }
            acc
        },
        None => {
            let kept = retain_existing_refresh_token_if_missing(tokens, None);
            let mut acc = CodexAccount::new(existing_id, email, kept, now);
            mark_token_chain_updated_at(&mut acc, now);
            acc.account_note = account_note;
            acc
        },
    };
    account.auth_mode = CodexAuthMode::Oauth;
    account.openai_api_key = None;
    account.api_base_url = None;
    account.api_provider_mode = CodexApiProviderMode::OpenaiBuiltin;
    account.api_provider_id = None;
    account.api_provider_name = None;
    account.bound_oauth_account_id = None;
    account.user_id = user_id;
    account.plan_type = plan_type;
    account.subscription_active_until = subscription_active_until;
    account.account_id = account_id;
    account.organization_id = organization_id;
    account.update_last_used(now);
    if pos.is_none() {
        index.accounts.push(
            CodexAccountSummary {
                id: account.id.clone(),
                email: account.email.clone(),
                plan_type: copy_opt(&account.plan_type),
                subscription_active_until: copy_opt(&account.subscription_active_until),
                created_at: account.created_at,
                last_used: account.last_used,
            },
        );
    }
    record_summary(&mut index.accounts, &account);
    account
}

/// The identity stored for a login with tokens `access_token` and an id
/// token that reads as `info`: account and organization ids come from the
/// access token first, then from the id token, then from the hints.
pub open spec fn hinted_identity(
    access_token: Seq<char>,
    info: (Seq<char>, Option<Seq<char>>, Option<Seq<char>>, Option<Seq<char>>, Option<Seq<char>>, Option<Seq<char>>),
    account_id_hint: Option<Seq<char>>,
    organization_id_hint: Option<Seq<char>>,
) -> (Option<Seq<char>>, Option<Seq<char>>, Option<Seq<char>>, Option<Seq<char>>, Option<Seq<char>>) {
    (
        info.1,
        info.2,
        info.3,
        normalized_opt(first_some(access_token_account_id(access_token), first_some(info.4, account_id_hint))),
        normalized_opt(first_some(access_token_org_id(access_token), first_some(info.5, organization_id_hint))),
    )
}

/// What storing a login given by its tokens does, with hints for the
/// account and organization ids: it fails, leaving the index as it was,
/// when the id token cannot be read.
pub open spec fn hinted_upsert(
    before: Seq<CodexAccountSummary>,
    after: Seq<CodexAccountSummary>,
    loaded: Seq<Option<CodexAccount>>,
    tokens: CodexTokens,
    account_id_hint: Option<Seq<char>>,
    organization_id_hint: Option<Seq<char>>,
    now: i64,
    r: Result<CodexAccount, String>,
) -> bool {
    match id_token_identity(tokens.id_token@) {
        Err(e) => r matches Err(m) && m@ == e && after == before,
        Ok(v) => r matches Ok(a) && oauth_upserted(
            before,
            after,
            loaded,
            v.0,
            hinted_identity(tokens.access_token@, v, account_id_hint, organization_id_hint),
            tokens,
            None,
            now,
            a,
        ),
    }
}

/// Stores a login given by its tokens, at time `now`, with hints for the
/// account and organization ids; fails, leaving the index as it was, when
/// the id token cannot be read.
pub fn upsert_account_with_hints(
    index: &mut CodexAccountIndex,
    loaded: Vec<Option<CodexAccount>>,
    tokens: CodexTokens,
    account_id_hint: Option<String>,
    organization_id_hint: Option<String>,
    now: i64,
) -> (r: Result<CodexAccount, String>)
    requires
        loaded@.len() == old(index).accounts@.len(),
    ensures
        final(index).current_account_id == old(index).current_account_id,
        hinted_upsert(
            old(index).accounts@,
            final(index).accounts@,
            loaded@,
            tokens,
            opt_str(account_id_hint),
            opt_str(organization_id_hint),
            now,
            r,
        ),
{
    let info = extract_user_info(tokens.id_token.as_str());
    let (email, user_id, plan_type, subscription_active_until, id_token_account_id, id_token_org_id) = match info {
        Ok(t) => t,
        Err(e) => {
            return Err(e);
        },
    };
    let account_id = normalize_optional_value(
        match extract_chatgpt_account_id_from_access_token(tokens.access_token.as_str()) {
            Some(v) => Some(v),
            None => match id_token_account_id {
                Some(v) => Some(v),
                None => account_id_hint,
            },
        },
    );
    let organization_id = normalize_optional_value(
        match extract_chatgpt_organization_id_from_access_token(tokens.access_token.as_str()) {
            Some(v) => Some(v),
            None => match id_token_org_id {
                Some(v) => Some(v),
                None => organization_id_hint,
            },
        },
    );
    let identity = OAuthIdentity { user_id, plan_type, subscription_active_until, account_id, organization_id };
    Ok(upsert_oauth_account(index, loaded, email, identity, tokens, None, now))
}

/// `upsert_account`: stores a login given by its tokens, at time `now`.
pub fn upsert_account(
    index: &mut CodexAccountIndex,
    loaded: Vec<Option<CodexAccount>>,
    tokens: CodexTokens,
    now: i64,
) -> (r: Result<CodexAccount, String>)
    requires
        loaded@.len() == old(index).accounts@.len(),
    ensures
        final(index).current_account_id == old(index).current_account_id,
        hinted_upsert(old(index).accounts@, final(index).accounts@, loaded@, tokens, None, None, now, r),
{
    upsert_account_with_hints(index, loaded, tokens, None, None, now)
}

/// The email an access-token login is stored under: the token's email, else
/// `codex-` and its account id or user id, else `codex-access-` and the
/// token's fingerprint.
pub open spec fn access_login_email(token: Seq<char>) -> Seq<char> {
    let ident = access_token_identity(token);
    match ident.0 {
        Some(e) => e,
        None => match ident.4 {
            Some(a) => "codex-"@ + a,
            None => match ident.1 {
                Some(u) => "codex-"@ + u,
                None => "codex-access-"@ + hex_text(md5_digest(token)).take(12),
            },
        },
    }
}

/// The identity fields of an access-token login.
pub open spec fn access_login_identity(token: Seq<char>) -> (
    Option<Seq<char>>,
    Option<Seq<char>>,
    Option<Seq<char>>,
    Option<Seq<char>>,
    Option<Seq<char>>,
) {
    let ident = access_token_identity(token);
    (ident.1, ident.2, ident.3, ident.4, ident.5)
}

/// What storing a login that has only an access token does: an empty
/// token is refused, leaving the index as it was; else the trimmed token is
/// stored, with no id token and no refresh token of its own.
pub open spec fn access_token_upsert(
    before: Seq<CodexAccountSummary>,
    after: Seq<CodexAccountSummary>,
    loaded: Seq<Option<CodexAccount>>,
    access_token: Seq<char>,
    account_note: Option<String>,
    now: i64,
    r: Result<CodexAccount, String>,
) -> bool {
    match non_blank(access_token) {
        None => r matches Err(m) && m@ == "accessToken 不能为空"@ && after == before,
        Some(t) => r matches Ok(a) && oauth_upserted(
            before,
            after,
            loaded,
            access_login_email(t),
            access_login_identity(t),
            CodexTokens { id_token: a.tokens.id_token, access_token: a.tokens.access_token, refresh_token: None },
            account_note,
            now,
            a,
        ) && a.tokens.id_token@.len() == 0 && a.tokens.access_token@ == t,
    }
}

/// `upsert_account_from_access_token`: stores a login that has only an
/// access token (trimmed; an empty one is refused), at time `now`, with an
/// optional note.
pub fn upsert_account_from_access_token(
    index: &mut CodexAccountIndex,
    loaded: Vec<Option<CodexAccount>>,
    access_token: String,
    account_note: Option<String>,
    now: i64,
) -> (r: Result<CodexAccount, String>)
    requires
        loaded@.len() == old(index).accounts@.len(),
    ensures
        final(index).current_account_id == old(index).current_account_id,
        access_token_upsert(old(index).accounts@, final(index).accounts@, loaded@, access_token@, account_note, now, r),
{
    let access_token = match normalize_optional_value(Some(access_token)) {
        Some(t) => t,
        None => {
            return Err("accessToken 不能为空".to_string());
        },
    };
    let (email, identity) = extract_access_token_identity(access_token.as_str());
    let email = match email {
        Some(e) => e,
        None => match &identity.account_id {
            Some(a) => crate::text::concat("codex-", a.as_str()),
            None => match &identity.user_id {
                Some(u) => crate::text::concat("codex-", u.as_str()),
                None => crate::text::concat("codex-access-", access_token_fingerprint(access_token.as_str()).as_str()),
            },
        },
    };
    let tokens = CodexTokens { id_token: String::new(), access_token, refresh_token: None };
    Ok(upsert_oauth_account(index, loaded, email, identity, tokens, account_note, now))
}

/// Storing an OAuth login: the index afterwards finds the stored account
/// by its id, and its entry there is the account's summary (keeping the
/// creation time of an entry it already had).
pub proof fn law_oauth_upsert_then_found(
    before: Seq<CodexAccountSummary>,
    after: Seq<CodexAccountSummary>,
    loaded: Seq<Option<CodexAccount>>,
    email: Seq<char>,
    ident: (Option<Seq<char>>, Option<Seq<char>>, Option<Seq<char>>, Option<Seq<char>>, Option<Seq<char>>),
    tokens: CodexTokens,
    account_note: Option<String>,
    now: i64,
    r: CodexAccount,
)
    requires
        oauth_upserted(before, after, loaded, email, ident, tokens, account_note, now, r),
    ensures
        summary_position(after, r.id@, 0) matches Some(k) && after[k].email == r.email && after[k].plan_type
            == r.plan_type && after[k].subscription_active_until == r.subscription_active_until && after[k].last_used
            == r.last_used && after[k].id@ == r.id@,
{
    let other = r.id@.push('x');
    assert(other.len() != r.id@.len());
    let target = oauth_target_id(before, loaded, email, ident.3, ident.4);
    match summary_position(before, target, 0) {
        Some(k) => {
            law_recorded_then_found(before, r, other);
        },
        None => {
            law_recorded_then_found(before.push(summary_of(r)), r, other);
        },
    }
    lemma_position_bounds(after, r.id@, 0);
}

/// Storing a login that has no refresh token for an account that is
/// already stored keeps that account, and keeps its own refresh token.
pub proof fn law_upsert_keeps_refresh_token(
    before: Seq<CodexAccountSummary>,
    after: Seq<CodexAccountSummary>,
    loaded: Seq<Option<CodexAccount>>,
    email: Seq<char>,
    ident: (Option<Seq<char>>, Option<Seq<char>>, Option<Seq<char>>, Option<Seq<char>>, Option<Seq<char>>),
    tokens: CodexTokens,
    account_note: Option<String>,
    now: i64,
    r: CodexAccount,
    k: int,
)
    requires
        oauth_upserted(before, after, loaded, email, ident, tokens, account_note, now, r),
        tokens.refresh_token is None,
        summary_position(before, oauth_target_id(before, loaded, email, ident.3, ident.4), 0) == Some(k),
        loaded[k] is Some,
    ensures
        r.id == loaded[k]->0.id,
        opt_str(r.tokens.refresh_token) == normalized_opt(opt_str(loaded[k]->0.tokens.refresh_token)),
{
}

/// No two summaries of an index share an id.
pub open spec fn ids_unique(accounts: Seq<CodexAccountSummary>) -> bool {
    forall|i: int, j: int|
        #![trigger accounts[i], accounts[j]]
        0 <= i < j < accounts.len() ==> accounts[i].id@ != accounts[j].id@
}

proof fn lemma_push_absent_keeps_ids_unique(accounts: Seq<CodexAccountSummary>, s: CodexAccountSummary)
    requires
        ids_unique(accounts),
        summary_position(accounts, s.id@, 0) is None,
    ensures
        ids_unique(accounts.push(s)),
{
    lemma_position_bounds(accounts, s.id@, 0);
    let after = accounts.push(s);
    assert forall|i: int, j: int| 0 <= i < j < after.len() implies after[i].id@ != after[j].id@ by {
        if j == accounts.len() {
            assert(after[i] == accounts[i]);
        } else {
            assert(after[i] == accounts[i] && after[j] == accounts[j]);
        }
    }
}

proof fn lemma_position_after_push(accounts: Seq<CodexAccountSummary>, s: CodexAccountSummary, other: Seq<char>)
    requires
        other != s.id@,
    ensures
        summary_position(accounts.push(s), other, 0) == summary_position(accounts, other, 0),
{
    let after = accounts.push(s);
    lemma_position_bounds(accounts, other, 0);
    match summary_position(accounts, other, 0) {
        Some(j) => {
            assert forall|x: int| 0 <= x < j implies (#[trigger] after[x]).id@ != other by {
                assert(after[x] == accounts[x]);
            }
            assert(after[j] == accounts[j]);
            lemma_position_by_scan(after, other, 0, j);
        },
        None => {
            assert forall|x: int| 0 <= x < after.len() implies (#[trigger] after[x]).id@ != other by {
                if x < accounts.len() {
                    assert(after[x] == accounts[x]);
                }
            }
            lemma_position_none_by_scan(after, other, 0);
        },
    }
}

proof fn lemma_others_kept(
    before: Seq<CodexAccountSummary>,
    base: Seq<CodexAccountSummary>,
    a: CodexAccount,
)
    requires
        base == before || (base == before.push(summary_of(a))),
    ensures
        forall|other: Seq<char>|
            other != a.id@ ==> #[trigger] summary_position(recorded(base, a), other, 0) == summary_position(
                before,
                other,
                0,
            ),
        forall|other: Seq<char>|
            other != a.id@ ==> (#[trigger] summary_position(before, other, 0) matches Some(j) ==> recorded(base, a)[j]
                == before[j]),
{
    assert forall|other: Seq<char>| other != a.id@ implies #[trigger] summary_position(recorded(base, a), other, 0)
        == summary_position(before, other, 0) by {
        law_recorded_then_found(base, a, other);
        if base != before {
            lemma_position_after_push(before, summary_of(a), other);
        }
    }
    assert forall|other: Seq<char>| other != a.id@ implies (#[trigger] summary_position(before, other, 0) matches Some(j)
        ==> recorded(base, a)[j] == before[j]) by {
        law_recorded_then_found(base, a, other);
        lemma_position_bounds(before, other, 0);
        if base != before {
            lemma_position_after_push(before, summary_of(a), other);
            if let Some(j) = summary_position(before, other, 0) {
                assert(base[j] == before[j]);
            }
        }
    }
}

/// Recording an account keeps the ids of an index unique, and the index
/// then lists the account's id.
pub proof fn law_recorded_keeps_ids_unique(accounts: Seq<CodexAccountSummary>, a: CodexAccount)
    requires
        ids_unique(accounts),
    ensures
        ids_unique(recorded(accounts, a)),
        summary_position(recorded(accounts, a), a.id@, 0) is Some,
{
    lemma_position_bounds(accounts, a.id@, 0);
    let other = a.id@.push('x');
    assert(other.len() != a.id@.len());
    law_recorded_then_found(accounts, a, other);
    let after = recorded(accounts, a);
    match summary_position(accounts, a.id@, 0) {
        Some(k) => {
            assert forall|i: int| 0 <= i < after.len() implies #[trigger] after[i].id@ == accounts[i].id@ by {
                if i != k {
                    assert(after[i] == accounts[i]);
                }
            }
            assert forall|i: int, j: int| 0 <= i < j < after.len() implies after[i].id@ != after[j].id@ by {
                assert(after[i].id@ == accounts[i].id@);
                assert(after[j].id@ == accounts[j].id@);
            }
        },
        None => {
            lemma_push_absent_keeps_ids_unique(accounts, summary_of(a));
        },
    }
}

/// Storing an OAuth login keeps the ids of the index unique, and every
/// other id is found where it was, with its summary.
pub proof fn law_oauth_upsert_keeps_ids_unique(
    before: Seq<CodexAccountSummary>,
    after: Seq<CodexAccountSummary>,
    loaded: Seq<Option<CodexAccount>>,
    email: Seq<char>,
    ident: (Option<Seq<char>>, Option<Seq<char>>, Option<Seq<char>>, Option<Seq<char>>, Option<Seq<char>>),
    tokens: CodexTokens,
    account_note: Option<String>,
    now: i64,
    r: CodexAccount,
)
    requires
        oauth_upserted(before, after, loaded, email, ident, tokens, account_note, now, r),
        ids_unique(before),
    ensures
        ids_unique(after),
        forall|other: Seq<char>|
            other != r.id@ ==> #[trigger] summary_position(after, other, 0) == summary_position(before, other, 0),
        forall|other: Seq<char>|
            other != r.id@ ==> (#[trigger] summary_position(before, other, 0) matches Some(j) ==> after[j] == before[j]),
{
    let target = oauth_target_id(before, loaded, email, ident.3, ident.4);
    match summary_position(before, target, 0) {
        Some(k) => {
            law_recorded_keeps_ids_unique(before, r);
            lemma_others_kept(before, before, r);
        },
        None => {
            lemma_push_absent_keeps_ids_unique(before, summary_of(r));
            law_recorded_keeps_ids_unique(before.push(summary_of(r)), r);
            lemma_others_kept(before, before.push(summary_of(r)), r);
        },
    }
}

/// Storing an API key login keeps the ids of the index unique; the index
/// then lists the stored account, and every other id is found where it
/// was, with its summary.
pub proof fn law_api_key_upsert_keeps_ids_unique(
    before: Seq<CodexAccountSummary>,
    after: Seq<CodexAccountSummary>,
    loaded_existing: Option<CodexAccount>,
    api_key: Seq<char>,
    api_base_url: Option<Seq<char>>,
    api_provider_mode: Option<CodexApiProviderMode>,
    api_provider_id: Option<Seq<char>>,
    api_provider_name: Option<Seq<char>>,
    now: i64,
    a: CodexAccount,
)
    requires
        api_key_upserted(
            before,
            after,
            loaded_existing,
            api_key,
            api_base_url,
            api_provider_mode,
            api_provider_id,
            api_provider_name,
            now,
            a,
        ),
        ids_unique(before),
    ensures
        ids_unique(after),
        summary_position(after, a.id@, 0) is Some,
        forall|other: Seq<char>|
            other != a.id@ ==> #[trigger] summary_position(after, other, 0) == summary_position(before, other, 0),
        forall|other: Seq<char>|
            other != a.id@ ==> (#[trigger] summary_position(before, other, 0) matches Some(j) ==> after[j] == before[j]),
{
    let id = api_key_id(checked_credentials(api_key, api_base_url)->Ok_0.0);
    if summary_position(before, id, 0) is Some {
        law_recorded_keeps_ids_unique(before, a);
        lemma_others_kept(before, before, a);
    } else {
        lemma_push_absent_keeps_ids_unique(before, summary_of(a));
        law_recorded_keeps_ids_unique(before.push(summary_of(a)), a);
        lemma_others_kept(before, before.push(summary_of(a)), a);
    }
}

/// Storing the same API key login twice returns the same account id and
/// leaves the number of summaries as the first store left it, when the
/// second store loads, for the key's id, what the store then holds there:
/// an account with the id the first store returned (`l2`), or nothing only
/// when the first store used the key's id. The first store keeps the
/// account under the key's id unless it loaded an account carrying another
/// id.
pub proof fn law_api_key_upsert_again(
    s0: Seq<CodexAccountSummary>,
    s1: Seq<CodexAccountSummary>,
    s2: Seq<CodexAccountSummary>,
    l1: Option<CodexAccount>,
    l2: Option<CodexAccount>,
    api_key: Seq<char>,
    api_base_url: Option<Seq<char>>,
    api_provider_mode: Option<CodexApiProviderMode>,
    api_provider_id: Option<Seq<char>>,
    api_provider_name: Option<Seq<char>>,
    now1: i64,
    now2: i64,
    a1: CodexAccount,
    a2: CodexAccount,
)
    requires
        api_key_upserted(s0, s1, l1, api_key, api_base_url, api_provider_mode, api_provider_id, api_provider_name, now1, a1),
        api_key_upserted(s1, s2, l2, api_key, api_base_url, api_provider_mode, api_provider_id, api_provider_name, now2, a2),
        l2 matches Some(l) ==> l.id@ == a1.id@,
        l2 is None ==> a1.id@ == api_key_id(checked_credentials(api_key, api_base_url)->Ok_0.0),
    ensures
        (l1 matches Some(l) ==> l.id@ == api_key_id(checked_credentials(api_key, api_base_url)->Ok_0.0)) ==> a1.id@
            == api_key_id(checked_credentials(api_key, api_base_url)->Ok_0.0),
        a2.id@ == a1.id@,
        s2.len() == s1.len(),
{
    let id = api_key_id(checked_credentials(api_key, api_base_url)->Ok_0.0);
    let base1 = if summary_position(s0, id, 0) is Some {
        s0
    } else {
        s0.push(summary_of(a1))
    };
    let other1 = a1.id@.push('x');
    assert(other1.len() != a1.id@.len());
    law_recorded_then_found(base1, a1, other1);
    if a1.id@ != id {
        law_recorded_then_found(base1, a1, id);
    }
    assert(summary_position(s1, id, 0) is Some);
    assert(a2.id@ == a1.id@);
    let other2 = a2.id@.push('x');
    assert(other2.len() != a2.id@.len());
    law_recorded_then_found(s1, a2, other2);
}

} // verus!
