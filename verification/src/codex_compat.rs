//! Reading account files written by other tools or older versions: loose
//! JSON fields, refresh times, account metadata, and whole accounts.
use vstd::prelude::*;
use crate::external::{
    json_array_len, json_array_length, json_as_integer_text, json_as_string, json_get_item, json_get_member,
    json_integer, json_item, json_member, json_string, parse_rfc3339_seconds, rfc3339_seconds,
};
use crate::codex::{
    access_token_account_id, access_token_org_id, build_api_key_email, checked_credentials,
    extract_chatgpt_account_id_from_access_token, extract_chatgpt_organization_id_from_access_token,
    extract_user_info, first_some, id_token_identity, is_auth_mode_apikey, non_blank, normalize_api_base_url,
    normalize_api_key, normalize_optional_ref, normalize_optional_value, normalized_base_url, normalized_opt,
    opt_ref, provider_view, resolve_api_provider_config, fresh_account, resolved_provider, validate_api_key_credentials,
    CodexAccount, CodexAccountSummary, CodexApiProviderMode, CodexAuthMode,
};
use crate::codex_import::{codex_tokens_in, extract_codex_tokens_from_value};
use crate::strings::{opt_str, strs};
use crate::text::{lower, parse_i64_spec, parse_u64_spec, trim};

verus! {

broadcast use vstd::string::group_string_axioms;

// ---------------------------------------------------------------------------
// Loose fields
// ---------------------------------------------------------------------------

/// The first of `keys`, from position `i`, whose member is a string; that
/// string as it is.
pub open spec fn first_raw_string(value: Seq<char>, keys: Seq<Seq<char>>, i: int) -> Option<Seq<char>>
    decreases keys.len() - i,
{
    if i < 0 || i >= keys.len() {
        None
    } else {
        match json_member(value, keys[i]) {
            Some(m) => match json_string(m) {
                Some(s) => Some(s),
                None => first_raw_string(value, keys, i + 1),
            },
            None => first_raw_string(value, keys, i + 1),
        }
    }
}

/// `read_json_string`: the first string among `keys`, trimmed; nothing when
/// it is blank.
pub open spec fn read_string(value: Seq<char>, keys: Seq<Seq<char>>) -> Option<Seq<char>> {
    match first_raw_string(value, keys, 0) {
        Some(s) => non_blank(s),
        None => None,
    }
}

/// `read_json_string`.
pub fn read_json_string(value: &str, keys: &[&str]) -> (r: Option<String>)
    ensures
        opt_str(r) == read_string(value@, keys@.map_values(|k: &str| k@)),
{
    let ghost ks = keys@.map_values(|k: &str| k@);
    let mut i: usize = 0;
    while i < keys.len()
        invariant
            i <= keys@.len(),
            ks == keys@.map_values(|k: &str| k@),
            first_raw_string(value@, ks, 0) == first_raw_string(value@, ks, i as int),
        decreases keys.len() - i,
    {
        assert(ks[i as int] == keys@[i as int]@);
        match json_get_member(value, keys[i]) {
            Some(m) => match json_as_string(m.as_str()) {
                Some(s) => {
                    return normalize_optional_ref(Some(s.as_str()));
                },
                None => {},
            },
            None => {},
        }
        i += 1;
    }
    None
}

/// A large count of seconds is taken for milliseconds.
pub open spec fn seconds_of(raw: int) -> int {
    if raw > 1_000_000_000_000 {
        raw / 1000
    } else {
        raw
    }
}

/// `parse_auth_file_last_refresh`: an integer (seconds, or milliseconds
/// when large), or a text holding an RFC 3339 time or such an integer.
pub open spec fn last_refresh(value: Option<Seq<char>>) -> Option<i64> {
    match value {
        None => None,
        Some(v) => match json_integer(v) {
            Some(d) => match parse_i64_spec(d) {
                Some(raw) => Some(seconds_of(raw as int) as i64),
                None => match parse_u64_spec(d) {
                    Some(u) => if seconds_of(u as int) <= i64::MAX {
                        Some(seconds_of(u as int) as i64)
                    } else {
                        None
                    },
                    None => None,
                },
            },
            None => match json_string(v) {
                None => None,
                Some(s) => if trim(s).len() == 0 {
                    None
                } else {
                    match rfc3339_seconds(trim(s)) {
                        Some(t) => Some(t),
                        None => match parse_i64_spec(trim(s)) {
                            Some(p) => Some(seconds_of(p as int) as i64),
                            None => None,
                        },
                    }
                },
            },
        },
    }
}

/// `parse_auth_file_last_refresh`, on the JSON text of the value.
pub fn parse_auth_file_last_refresh(value: Option<&str>) -> (r: Option<i64>)
    ensures
        r == last_refresh(opt_ref(value)),
{
    let v = match value {
        Some(v) => v,
        None => {
            return None;
        },
    };
    match json_as_integer_text(v) {
        Some(d) => {
            let digits = crate::text::chars_of(d.as_str());
            match crate::text::parse_i64_chars(&digits) {
                Some(raw) => Some(
                    if raw > 1_000_000_000_000 {
                        raw / 1000
                    } else {
                        raw
                    },
                ),
                None => match crate::text::parse_u64_chars(&digits) {
                    Some(u) => {
                        let n = if u > 1_000_000_000_000 {
                            u / 1000
                        } else {
                            u
                        };
                        if n <= 9_223_372_036_854_775_807u64 {
                            Some(n as i64)
                        } else {
                            None
                        }
                    },
                    None => None,
                },
            }
        },
        None => {
            let s = match json_as_string(v) {
                Some(s) => s,
                None => {
                    return None;
                },
            };
            let t = crate::text::trimmed(s.as_str());
            if t.len() == 0 {
                return None;
            }
            let text = crate::text::string_of(&t);
            match parse_rfc3339_seconds(text.as_str()) {
                Some(ts) => Some(ts),
                None => match crate::text::parse_i64_chars(&t) {
                    Some(p) => Some(
                        if p > 1_000_000_000_000 {
                            p / 1000
                        } else {
                            p
                        },
                    ),
                    None => None,
                },
            }
        },
    }
}

/// The integer of one member: a refresh-time text, or an integer that fits
/// in `i64`.
pub open spec fn i64_member(m: Seq<char>) -> Option<i64> {
    if json_string(m) is Some {
        last_refresh(Some(m))
    } else {
        match json_integer(m) {
            Some(d) => parse_i64_spec(d),
            None => None,
        }
    }
}

/// `read_json_i64`: the first of `keys`, from position `i`, that gives an
/// integer.
pub open spec fn read_i64(value: Seq<char>, keys: Seq<Seq<char>>, i: int) -> Option<i64>
    decreases keys.len() - i,
{
    if i < 0 || i >= keys.len() {
        None
    } else {
        match json_member(value, keys[i]) {
            Some(m) => match i64_member(m) {
                Some(x) => Some(x),
                None => read_i64(value, keys, i + 1),
            },
            None => read_i64(value, keys, i + 1),
        }
    }
}

/// `read_json_i64`.
pub fn read_json_i64(value: &str, keys: &[&str]) -> (r: Option<i64>)
    ensures
        r == read_i64(value@, keys@.map_values(|k: &str| k@), 0),
{
    let ghost ks = keys@.map_values(|k: &str| k@);
    let mut i: usize = 0;
    while i < keys.len()
        invariant
            i <= keys@.len(),
            ks == keys@.map_values(|k: &str| k@),
            read_i64(value@, ks, 0) == read_i64(value@, ks, i as int),
        decreases keys.len() - i,
    {
        assert(ks[i as int] == keys@[i as int]@);
        match json_get_member(value, keys[i]) {
            Some(m) => {
                let x = if json_as_string(m.as_str()).is_some() {
                    parse_auth_file_last_refresh(Some(m.as_str()))
                } else {
                    match json_as_integer_text(m.as_str()) {
                        Some(d) => crate::text::parse_i64_chars(&crate::text::chars_of(d.as_str())),
                        None => None,
                    }
                };
                match x {
                    Some(v) => {
                        return Some(v);
                    },
                    None => {},
                }
            },
            None => {},
        }
        i += 1;
    }
    None
}

/// The first of `keys`, from position `i`, whose member is an array.
pub open spec fn first_array(value: Seq<char>, keys: Seq<Seq<char>>, i: int) -> Option<(Seq<char>, usize)>
    decreases keys.len() - i,
{
    if i < 0 || i >= keys.len() {
        None
    } else {
        match json_member(value, keys[i]) {
            Some(m) => match json_array_len(m) {
                Some(n) => Some((m, n)),
                None => first_array(value, keys, i + 1),
            },
            None => first_array(value, keys, i + 1),
        }
    }
}

/// The non-blank strings among the first `n` items of an array, trimmed.
pub open spec fn array_strings(array: Seq<char>, n: int) -> Seq<Seq<char>>
    decreases n,
{
    if n <= 0 {
        Seq::empty()
    } else {
        let rest = array_strings(array, n - 1);
        match json_item(array, (n - 1) as usize) {
            Some(it) => match normalized_opt(json_string(it)) {
                Some(t) => rest.push(t),
                None => rest,
            },
            None => rest,
        }
    }
}

/// `read_json_string_array`: the non-blank strings of the first array
/// among `keys`; nothing when there are none.
pub open spec fn read_string_array(value: Seq<char>, keys: Seq<Seq<char>>) -> Option<Seq<Seq<char>>> {
    match first_array(value, keys, 0) {
        Some((a, n)) => {
            let xs = array_strings(a, n as int);
            if xs.len() == 0 {
                None
            } else {
                Some(xs)
            }
        },
        None => None,
    }
}

/// `read_json_string_array`.
pub fn read_json_string_array(value: &str, keys: &[&str]) -> (r: Option<Vec<String>>)
    ensures
        match read_string_array(value@, keys@.map_values(|k: &str| k@)) {
            Some(xs) => r matches Some(v) && strs(v@) == xs,
            None => r is None,
        },
{
    let ghost ks = keys@.map_values(|k: &str| k@);
    let mut i: usize = 0;
    let mut found: Option<(String, usize)> = None;
    while i < keys.len() && found.is_none()
        invariant
            i <= keys@.len(),
            ks == keys@.map_values(|k: &str| k@),
            found is None ==> first_array(value@, ks, 0) == first_array(value@, ks, i as int),
            found matches Some(f) ==> first_array(value@, ks, 0) == Some((f.0@, f.1)),
        decreases keys.len() - i + (if found is None { 1int } else { 0int }),
    {
        assert(ks[i as int] == keys@[i as int]@);
        match json_get_member(value, keys[i]) {
            Some(m) => match json_array_length(m.as_str()) {
                Some(n) => {
                    found = Some((m, n));
                },
                None => {
                    i += 1;
                },
            },
            None => {
                i += 1;
            },
        }
    }
    let (array, n) = match found {
        Some(f) => f,
        None => {
            return None;
        },
    };
    let mut r: Vec<String> = Vec::new();
    let mut k: usize = 0;
    while k < n
        invariant
            k <= n,
            strs(r@) == array_strings(array@, k as int),
        decreases n - k,
    {
        match json_get_item(array.as_str(), k) {
            Some(it) => {
                let s = json_as_string(it.as_str());
                let t = match &s {
                    Some(x) => normalize_optional_ref(Some(x.as_str())),
                    None => None,
                };
                match t {
                    Some(t) => {
                        r.push(t);
                        assert(strs(r@) =~= strs(r@.drop_last()).push(r@.last()@));
                    },
                    None => {},
                }
            },
            None => {},
        }
        k += 1;
    }
    if r.len() == 0 {
        None
    } else {
        Some(r)
    }
}

/// `extract_api_base_url_from_json_value`: the first string among
/// `base_url`, `api_base_url` and `apiBaseUrl`, normalized.
pub open spec fn api_base_url_in(value: Seq<char>) -> Option<Seq<char>> {
    normalized_base_url(first_raw_string(value, seq!["base_url"@, "api_base_url"@, "apiBaseUrl"@], 0))
}

/// `extract_api_base_url_from_json_value`.
pub fn extract_api_base_url_from_json_value(value: &str) -> (r: Option<String>)
    ensures
        opt_str(r) == api_base_url_in(value@),
{
    let keys: [&str; 3] = ["base_url", "api_base_url", "apiBaseUrl"];
    let ghost ks = keys@.map_values(|k: &str| k@);
    assert(ks =~= seq!["base_url"@, "api_base_url"@, "apiBaseUrl"@]);
    let mut i: usize = 0;
    while i < 3
        invariant
            i <= 3,
            ks == keys@.map_values(|k: &str| k@),
            ks == seq!["base_url"@, "api_base_url"@, "apiBaseUrl"@],
            first_raw_string(value@, ks, 0) == first_raw_string(value@, ks, i as int),
        decreases 3 - i,
    {
        assert(ks[i as int] == keys@[i as int]@);
        match json_get_member(value, keys[i]) {
            Some(m) => match json_as_string(m.as_str()) {
                Some(s) => {
                    return normalize_api_base_url(Some(s.as_str()));
                },
                None => {},
            },
            None => {},
        }
        i += 1;
    }
    normalize_api_base_url(None)
}

/// The auth mode an imported object names, under `auth_mode` or `authMode`.
pub open spec fn auth_mode_in(value: Seq<char>) -> Option<Seq<char>> {
    first_raw_string(value, seq!["auth_mode"@, "authMode"@], 0)
}

/// Whether an imported object is an API key account.
pub open spec fn names_api_key_mode(value: Seq<char>) -> bool {
    match auth_mode_in(value) {
        Some(m) => lower(trim(m)) == "apikey"@,
        None => false,
    }
}

/// Whether an imported object names the API key mode.
fn value_names_api_key_mode(value: &str) -> (r: bool)
    ensures
        r == names_api_key_mode(value@),
{
    proof {
        reveal_with_fuel(first_raw_string, 3);
    }
    let mode = match json_get_member(value, "auth_mode") {
        Some(m) => match json_as_string(m.as_str()) {
            Some(s) => Some(s),
            None => match json_get_member(value, "authMode") {
                Some(m2) => json_as_string(m2.as_str()),
                None => None,
            },
        },
        None => match json_get_member(value, "authMode") {
            Some(m2) => json_as_string(m2.as_str()),
            None => None,
        },
    };
    match &mode {
        Some(s) => is_auth_mode_apikey(Some(s.as_str())),
        None => is_auth_mode_apikey(None),
    }
}

/// The string member `key`, as it is.
fn raw_string_member(value: &str, key: &str) -> (r: Option<String>)
    ensures
        opt_str(r) == match json_member(value@, key@) {
            Some(m) => json_string(m),
            None => None,
        },
{
    match json_get_member(value, key) {
        Some(m) => json_as_string(m.as_str()),
        None => None,
    }
}

/// The API key an imported object carries, trimmed and not blank.
pub open spec fn api_key_in(value: Seq<char>) -> Option<Seq<char>> {
    match json_member(value, "OPENAI_API_KEY"@) {
        Some(m) => match json_string(m) {
            Some(k) => non_blank(k),
            None => None,
        },
        None => None,
    }
}

/// An API key account found in an imported object: its key, base URL,
/// provider id and provider name.
#[derive(Debug)]
pub struct ApiKeyImport {
    pub api_key: String,
    pub api_base_url: Option<String>,
    pub api_provider_id: Option<String>,
    pub api_provider_name: Option<String>,
}

/// How an imported JSON value reads first: an object in the API key
/// mode that carries a key.
pub fn api_key_import_from_value(value: &str) -> (r: Option<ApiKeyImport>)
    ensures
        (names_api_key_mode(value@) && api_key_in(value@) is Some) == r is Some,
        r matches Some(x) ==> {
            &&& Some(x.api_key@) == api_key_in(value@)
            &&& opt_str(x.api_base_url) == api_base_url_in(value@)
            &&& opt_str(x.api_provider_id) == match json_member(value@, "api_provider_id"@) {
                Some(m) => json_string(m),
                None => None,
            }
            &&& opt_str(x.api_provider_name) == match json_member(value@, "api_provider_name"@) {
                Some(m) => json_string(m),
                None => None,
            }
        },
{
    if !value_names_api_key_mode(value) {
        return None;
    }
    let key = match raw_string_member(value, "OPENAI_API_KEY") {
        Some(k) => normalize_api_key(k.as_str()),
        None => None,
    };
    let api_key = match key {
        Some(k) => k,
        None => {
            return None;
        },
    };
    Some(
        ApiKeyImport {
            api_key,
            api_base_url: extract_api_base_url_from_json_value(value),
            api_provider_id: raw_string_member(value, "api_provider_id"),
            api_provider_name: raw_string_member(value, "api_provider_name"),
        },
    )
}

// ---------------------------------------------------------------------------
// Account metadata
// ---------------------------------------------------------------------------

/// The texts of an optional list.
pub open spec fn opt_strs(o: Option<Vec<String>>) -> Option<Seq<Seq<char>>> {
    match o {
        Some(v) => Some(strs(v@)),
        None => None,
    }
}

/// What `apply_compat_account_metadata` makes of `a` (as `b`), reading the
/// imported object `value`, with the index summary, at time `now`: an
/// email when it has none, names, notes and plans from the object (else
/// kept, else from the summary), times from the object (else from the
/// summary, else now or the creation time), and tags.
pub open spec fn compat_metadata_applied(
    a: CodexAccount,
    b: CodexAccount,
    value: Seq<char>,
    summary: Option<CodexAccountSummary>,
    now: i64,
) -> bool {
    &&& b.email@ == if trim(a.email@).len() == 0 {
        match read_string(value, seq!["email"@, "account_email"@]) {
            Some(e) => e,
            None => match summary {
                Some(s) => s.email@,
                None => a.id@,
            },
        }
    } else {
        a.email@
    }
    &&& opt_str(b.account_name) == first_some(read_string(value, seq!["account_name"@, "accountName"@]), opt_str(a.account_name))
    &&& opt_str(b.account_structure) == first_some(
        read_string(value, seq!["account_structure"@, "accountStructure"@]),
        opt_str(a.account_structure),
    )
    &&& opt_str(b.account_note) == first_some(read_string(value, seq!["account_note"@, "accountNote"@]), opt_str(a.account_note))
    &&& opt_str(b.auth_file_plan_type) == first_some(
        read_string(value, seq!["auth_file_plan_type"@, "authFilePlanType"@]),
        opt_str(a.auth_file_plan_type),
    )
    &&& opt_str(b.plan_type) == first_some(
        read_string(value, seq!["plan_type"@, "planType"@]),
        first_some(
            opt_str(a.plan_type),
            match summary {
                Some(s) => opt_str(s.plan_type),
                None => None,
            },
        ),
    )
    &&& opt_str(b.subscription_active_until) == first_some(
        read_string(value, seq!["subscription_active_until"@, "subscriptionActiveUntil"@]),
        first_some(
            opt_str(a.subscription_active_until),
            match summary {
                Some(s) => opt_str(s.subscription_active_until),
                None => None,
            },
        ),
    )
    &&& b.created_at == match read_i64(value, seq!["created_at"@, "createdAt"@], 0) {
        Some(x) => x,
        None => match summary {
            Some(s) => s.created_at,
            None => now,
        },
    }
    &&& b.last_used == match read_i64(value, seq!["last_used"@, "lastUsed"@], 0) {
        Some(x) => x,
        None => match summary {
            Some(s) => s.last_used,
            None => b.created_at,
        },
    }
    &&& b.token_updated_at == first_some(
        read_i64(value, seq!["token_updated_at"@, "tokenUpdatedAt"@], 0),
        first_some(last_refresh(json_member(value, "last_refresh"@)), a.token_updated_at),
    )
    &&& opt_strs(b.tags) == first_some(read_string_array(value, seq!["tags"@]), opt_strs(a.tags))
    &&& b == (CodexAccount {
        email: b.email,
        account_name: b.account_name,
        account_structure: b.account_structure,
        account_note: b.account_note,
        auth_file_plan_type: b.auth_file_plan_type,
        plan_type: b.plan_type,
        subscription_active_until: b.subscription_active_until,
        created_at: b.created_at,
        last_used: b.last_used,
        token_updated_at: b.token_updated_at,
        tags: b.tags,
        ..a
    })
}

/// The first of a read value and a kept one.
fn or_keep(read: Option<String>, kept: Option<String>) -> (r: Option<String>)
    ensures
        opt_str(r) == first_some(opt_str(read), opt_str(kept)),
{
    match read {
        Some(x) => Some(x),
        None => kept,
    }
}

/// `apply_compat_account_metadata`, at time `now`.
pub fn apply_compat_account_metadata(
    account: &mut CodexAccount,
    value: &str,
    summary: Option<&CodexAccountSummary>,
    now: i64,
)
    ensures
        compat_metadata_applied(
            *old(account),
            *final(account),
            value@,
            match summary {
                Some(s) => Some(*s),
                None => None,
            },
            now,
        ),
{
    let email_keys: [&str; 2] = ["email", "account_email"];
    let name_keys: [&str; 2] = ["account_name", "accountName"];
    let structure_keys: [&str; 2] = ["account_structure", "accountStructure"];
    let note_keys: [&str; 2] = ["account_note", "accountNote"];
    let file_plan_keys: [&str; 2] = ["auth_file_plan_type", "authFilePlanType"];
    let plan_keys: [&str; 2] = ["plan_type", "planType"];
    let until_keys: [&str; 2] = ["subscription_active_until", "subscriptionActiveUntil"];
    let created_keys: [&str; 2] = ["created_at", "createdAt"];
    let used_keys: [&str; 2] = ["last_used", "lastUsed"];
    let updated_keys: [&str; 2] = ["token_updated_at", "tokenUpdatedAt"];
    let tag_keys: [&str; 1] = ["tags"];
    assert(email_keys@.map_values(|k: &str| k@) =~= seq!["email"@, "account_email"@]);
    assert(name_keys@.map_values(|k: &str| k@) =~= seq!["account_name"@, "accountName"@]);
    assert(structure_keys@.map_values(|k: &str| k@) =~= seq!["account_structure"@, "accountStructure"@]);
    assert(note_keys@.map_values(|k: &str| k@) =~= seq!["account_note"@, "accountNote"@]);
    assert(file_plan_keys@.map_values(|k: &str| k@) =~= seq!["auth_file_plan_type"@, "authFilePlanType"@]);
    assert(plan_keys@.map_values(|k: &str| k@) =~= seq!["plan_type"@, "planType"@]);
    assert(until_keys@.map_values(|k: &str| k@) =~= seq!["subscription_active_until"@, "subscriptionActiveUntil"@]);
    assert(created_keys@.map_values(|k: &str| k@) =~= seq!["created_at"@, "createdAt"@]);
    assert(used_keys@.map_values(|k: &str| k@) =~= seq!["last_used"@, "lastUsed"@]);
    assert(updated_keys@.map_values(|k: &str| k@) =~= seq!["token_updated_at"@, "tokenUpdatedAt"@]);
    assert(tag_keys@.map_values(|k: &str| k@) =~= seq!["tags"@]);
    if crate::text::trimmed(account.email.as_str()).len() == 0 {
        account.email = match read_json_string(value, &email_keys) {
            Some(e) => e,
            None => match summary {
                Some(s) => s.email.clone(),
                None => account.id.clone(),
            },
        };
    }
    let name = or_keep(read_json_string(value, &name_keys), account.account_name.take());
    account.account_name = name;
    let structure = or_keep(read_json_string(value, &structure_keys), account.account_structure.take());
    account.account_structure = structure;
    let note = or_keep(read_json_string(value, &note_keys), account.account_note.take());
    account.account_note = note;
    let file_plan = or_keep(read_json_string(value, &file_plan_keys), account.auth_file_plan_type.take());
    account.auth_file_plan_type = file_plan;
    let summary_plan = match summary {
        Some(s) => crate::codex::copy_opt(&s.plan_type),
        None => None,
    };
    let plan = or_keep(read_json_string(value, &plan_keys), or_keep(account.plan_type.take(), summary_plan));
    account.plan_type = plan;
    let summary_until = match summary {
        Some(s) => crate::codex::copy_opt(&s.subscription_active_until),
        None => None,
    };
    let until = or_keep(
        read_json_string(value, &until_keys),
        or_keep(account.subscription_active_until.take(), summary_until),
    );
    account.subscription_active_until = until;
    account.created_at = match read_json_i64(value, &created_keys) {
        Some(x) => x,
        None => match summary {
            Some(s) => s.created_at,
            None => now,
        },
    };
    account.last_used = match read_json_i64(value, &used_keys) {
        Some(x) => x,
        None => match summary {
            Some(s) => s.last_used,
            None => account.created_at,
        },
    };
    account.token_updated_at = match read_json_i64(value, &updated_keys) {
        Some(x) => Some(x),
        None => {
            let member = json_get_member(value, "last_refresh");
            let from_refresh = match &member {
                Some(m) => parse_auth_file_last_refresh(Some(m.as_str())),
                None => parse_auth_file_last_refresh(None),
            };
            match from_refresh {
                Some(x) => Some(x),
                None => account.token_updated_at,
            }
        },
    };
    let tags = match read_json_string_array(value, &tag_keys) {
        Some(t) => Some(t),
        None => account.tags.take(),
    };
    account.tags = tags;
}

/// What `apply_api_key_import_metadata` makes of `a` (as `b`): the names,
/// note, plans and tags that the imported object gives replace the stored
/// ones; the rest stays.
pub open spec fn api_key_metadata_applied(a: CodexAccount, b: CodexAccount, value: Seq<char>) -> bool {
    &&& opt_str(b.account_name) == first_some(read_string(value, seq!["account_name"@, "accountName"@]), opt_str(a.account_name))
    &&& opt_str(b.account_note) == first_some(read_string(value, seq!["account_note"@, "accountNote"@]), opt_str(a.account_note))
    &&& opt_str(b.plan_type) == first_some(read_string(value, seq!["plan_type"@, "planType"@]), opt_str(a.plan_type))
    &&& opt_str(b.subscription_active_until) == first_some(
        read_string(value, seq!["subscription_active_until"@, "subscriptionActiveUntil"@]),
        opt_str(a.subscription_active_until),
    )
    &&& opt_str(b.auth_file_plan_type) == first_some(
        read_string(value, seq!["auth_file_plan_type"@, "authFilePlanType"@]),
        opt_str(a.auth_file_plan_type),
    )
    &&& opt_strs(b.tags) == first_some(read_string_array(value, seq!["tags"@]), opt_strs(a.tags))
    &&& b == (CodexAccount {
        account_name: b.account_name,
        account_note: b.account_note,
        plan_type: b.plan_type,
        subscription_active_until: b.subscription_active_until,
        auth_file_plan_type: b.auth_file_plan_type,
        tags: b.tags,
        ..a
    })
}

/// `apply_api_key_import_metadata`.
pub fn apply_api_key_import_metadata(account: &mut CodexAccount, value: &str)
    ensures
        api_key_metadata_applied(*old(account), *final(account), value@),
{
    let name_keys: [&str; 2] = ["account_name", "accountName"];
    let note_keys: [&str; 2] = ["account_note", "accountNote"];
    let plan_keys: [&str; 2] = ["plan_type", "planType"];
    let until_keys: [&str; 2] = ["subscription_active_until", "subscriptionActiveUntil"];
    let file_plan_keys: [&str; 2] = ["auth_file_plan_type", "authFilePlanType"];
    let tag_keys: [&str; 1] = ["tags"];
    assert(name_keys@.map_values(|k: &str| k@) =~= seq!["account_name"@, "accountName"@]);
    assert(note_keys@.map_values(|k: &str| k@) =~= seq!["account_note"@, "accountNote"@]);
    assert(plan_keys@.map_values(|k: &str| k@) =~= seq!["plan_type"@, "planType"@]);
    assert(until_keys@.map_values(|k: &str| k@) =~= seq!["subscription_active_until"@, "subscriptionActiveUntil"@]);
    assert(file_plan_keys@.map_values(|k: &str| k@) =~= seq!["auth_file_plan_type"@, "authFilePlanType"@]);
    assert(tag_keys@.map_values(|k: &str| k@) =~= seq!["tags"@]);
    let name = or_keep(read_json_string(value, &name_keys), account.account_name.take());
    account.account_name = name;
    let note = or_keep(read_json_string(value, &note_keys), account.account_note.take());
    account.account_note = note;
    let plan = or_keep(read_json_string(value, &plan_keys), account.plan_type.take());
    account.plan_type = plan;
    let until = or_keep(read_json_string(value, &until_keys), account.subscription_active_until.take());
    account.subscription_active_until = until;
    let file_plan = or_keep(read_json_string(value, &file_plan_keys), account.auth_file_plan_type.take());
    account.auth_file_plan_type = file_plan;
    let tags = match read_json_string_array(value, &tag_keys) {
        Some(t) => Some(t),
        None => account.tags.take(),
    };
    account.tags = tags;
}

// ---------------------------------------------------------------------------
// Identity from tokens
// ---------------------------------------------------------------------------

/// What `sync_identity_from_tokens` makes of `a` (as `b`): when the id
/// token reads, its email (when not blank), user, plan and subscription
/// end, and the account and organization ids of the tokens (else kept).
pub open spec fn identity_synced(a: CodexAccount, b: CodexAccount) -> bool {
    match id_token_identity(a.tokens.id_token@) {
        Err(_) => b == a,
        Ok(v) => {
            &&& b.email@ == if trim(v.0).len() == 0 {
                a.email@
            } else {
                v.0
            }
            &&& opt_str(b.user_id) == v.1 && opt_str(b.plan_type) == v.2 && opt_str(b.subscription_active_until) == v.3
            &&& opt_str(b.account_id) == normalized_opt(
                first_some(access_token_account_id(a.tokens.access_token@), first_some(v.4, opt_str(a.account_id))),
            )
            &&& opt_str(b.organization_id) == normalized_opt(
                first_some(access_token_org_id(a.tokens.access_token@), first_some(v.5, opt_str(a.organization_id))),
            )
            &&& b == (CodexAccount {
                email: b.email,
                user_id: b.user_id,
                plan_type: b.plan_type,
                subscription_active_until: b.subscription_active_until,
                account_id: b.account_id,
                organization_id: b.organization_id,
                ..a
            })
        },
    }
}

/// `sync_identity_from_tokens`.
pub fn sync_identity_from_tokens(account: &mut CodexAccount)
    ensures
        identity_synced(*old(account), *final(account)),
{
    let info = extract_user_info(account.tokens.id_token.as_str());
    let (email, user_id, plan_type, subscription_active_until, id_token_account_id, id_token_org_id) = match info {
        Ok(t) => t,
        Err(_) => {
            return ;
        },
    };
    if crate::text::trimmed(email.as_str()).len() != 0 {
        account.email = email;
    }
    account.user_id = user_id;
    account.plan_type = plan_type;
    account.subscription_active_until = subscription_active_until;
    let account_id = normalize_optional_value(
        match extract_chatgpt_account_id_from_access_token(account.tokens.access_token.as_str()) {
            Some(v) => Some(v),
            None => match id_token_account_id {
                Some(v) => Some(v),
                None => account.account_id.take(),
            },
        },
    );
    account.account_id = account_id;
    let organization_id = normalize_optional_value(
        match extract_chatgpt_organization_id_from_access_token(account.tokens.access_token.as_str()) {
            Some(v) => Some(v),
            None => match id_token_org_id {
                Some(v) => Some(v),
                None => account.organization_id.take(),
            },
        },
    );
    account.organization_id = organization_id;
}

// ---------------------------------------------------------------------------
// Whole accounts
// ---------------------------------------------------------------------------

/// The email a compatible account is stored under: the object's, else the
/// summary's, else `fallback`.
pub open spec fn compat_email(value: Seq<char>, summary: Option<CodexAccountSummary>, fallback: Seq<char>) -> Seq<char> {
    match read_string(value, seq!["email"@, "account_email"@]) {
        Some(e) => e,
        None => match summary {
            Some(s) => s.email@,
            None => fallback,
        },
    }
}

/// The optional summary as a value.
pub open spec fn summary_value(summary: Option<&CodexAccountSummary>) -> Option<CodexAccountSummary> {
    match summary {
        Some(s) => Some(*s),
        None => None,
    }
}

/// The raw string member `key`.
pub open spec fn raw_member(value: Seq<char>, key: Seq<char>) -> Option<Seq<char>> {
    match json_member(value, key) {
        Some(m) => json_string(m),
        None => None,
    }
}

/// `parse_codex_account_compat`, at time `now`: an account file read as an
/// account (`parsed`, when it reads as one) gets the fallback id when it
/// has none and the object's metadata; else an object in the API key mode
/// becomes an API key account (`provider_mode` being the mode it names),
/// and an object with tokens an OAuth account; anything else is no account.
pub fn parse_codex_account_compat(
    value: &str,
    fallback_id: &str,
    summary: Option<&CodexAccountSummary>,
    parsed: Option<CodexAccount>,
    provider_mode: Option<CodexApiProviderMode>,
    now: i64,
) -> (r: Result<Option<CodexAccount>, String>)
    ensures
        match parsed {
            Some(p) => r matches Ok(Some(a)) && exists|b: CodexAccount|
                #![trigger compat_metadata_applied(b, a, value@, summary_value(summary), now)]
                b == (CodexAccount { id: b.id, ..p }) && b.id@ == (if trim(p.id@).len() == 0 {
                    fallback_id@
                } else {
                    p.id@
                }) && compat_metadata_applied(b, a, value@, summary_value(summary), now),
            None => if names_api_key_mode(value@) {
                match api_key_in(value@) {
                    None => r matches Ok(None),
                    Some(k) => match checked_credentials(k, api_base_url_in(value@)) {
                        Err(e) => r matches Err(m) && m@ == e,
                        Ok(cred) => match resolved_provider(
                            cred.1,
                            provider_mode,
                            raw_member(value@, "api_provider_id"@),
                            raw_member(value@, "api_provider_name"@),
                        ) {
                            Err(e) => r matches Err(m) && m@ == e,
                            Ok(pv) => r matches Ok(Some(a)) && a.plan_type matches Some(pt) && pt@ == "API_KEY"@
                                && exists|b: CodexAccount, c: CodexAccount|
                                #![trigger compat_metadata_applied(b, c, value@, summary_value(summary), now)]
                                {
                                    &&& b.id@ == fallback_id@
                                    &&& b.email@ == compat_email(
                                        value@,
                                        summary_value(summary),
                                        "api-key-"@ + crate::text::hex_text(crate::external::md5_digest(cred.0)).take(8),
                                    )
                                    &&& b.auth_mode == CodexAuthMode::Apikey
                                    &&& opt_str(b.openai_api_key) == Some(cred.0)
                                    &&& (b.api_provider_mode, opt_str(b.api_base_url), opt_str(b.api_provider_id), opt_str(
                                        b.api_provider_name,
                                    )) == pv
                                    &&& b.plan_type is None && b.account_name is None && b.subscription_active_until is None
                                    &&& b.created_at == now && b.last_used == now
                                    &&& compat_metadata_applied(b, c, value@, summary_value(summary), now)
                                    &&& a == (CodexAccount { plan_type: a.plan_type, ..c })
                                },
                        },
                    },
                }
            } else {
                match codex_tokens_in(value@) {
                    None => r matches Ok(None),
                    Some(t) => r matches Ok(Some(a)) && exists|b: CodexAccount, c: CodexAccount|
                        #![trigger identity_synced(b, c), compat_metadata_applied(c, a, value@, summary_value(summary), now)]
                        {
                            &&& b.id@ == fallback_id@
                            &&& b.email@ == compat_email(value@, summary_value(summary), fallback_id@)
                            &&& b.tokens.id_token@ == t.0 && b.tokens.access_token@ == t.1 && opt_str(
                                b.tokens.refresh_token,
                            ) == t.2
                            &&& fresh_account(b, now)
                            &&& opt_str(b.account_id) == normalized_opt(
                                first_some(
                                    access_token_account_id(t.1),
                                    first_some(t.3, read_string(value@, seq!["account_id"@, "accountId"@])),
                                ),
                            )
                            &&& opt_str(b.organization_id) == normalized_opt(
                                read_string(value@, seq!["organization_id"@, "organizationId"@]),
                            )
                            &&& identity_synced(b, c)
                            &&& compat_metadata_applied(c, a, value@, summary_value(summary), now)
                        },
                }
            },
        },
{
    let email_keys: [&str; 2] = ["email", "account_email"];
    assert(email_keys@.map_values(|k: &str| k@) =~= seq!["email"@, "account_email"@]);
    match parsed {
        Some(p) => {
            let mut account = p;
            if crate::text::trimmed(account.id.as_str()).len() == 0 {
                account.id = fallback_id.to_string();
            }
            let ghost b = account;
            apply_compat_account_metadata(&mut account, value, summary, now);
            assert(compat_metadata_applied(b, account, value@, summary_value(summary), now));
            return Ok(Some(account));
        },
        None => {},
    }
    if value_names_api_key_mode(value) {
        let key = match raw_string_member(value, "OPENAI_API_KEY") {
            Some(k) => normalize_api_key(k.as_str()),
            None => None,
        };
        let api_key = match key {
            Some(k) => k,
            None => {
                return Ok(None);
            },
        };
        let base_hint = extract_api_base_url_from_json_value(value);
        let checked = match &base_hint {
            Some(b) => validate_api_key_credentials(api_key.as_str(), Some(b.as_str())),
            None => validate_api_key_credentials(api_key.as_str(), None),
        };
        let (api_key, api_base_url) = match checked {
            Ok(c) => c,
            Err(e) => {
                return Err(e);
            },
        };
        let provider_id = raw_string_member(value, "api_provider_id");
        let provider_name = raw_string_member(value, "api_provider_name");
        let resolved = resolve_api_provider_config(
            match &api_base_url {
                Some(b) => Some(b.as_str()),
                None => None,
            },
            provider_mode,
            match &provider_id {
                Some(x) => Some(x.as_str()),
                None => None,
            },
            match &provider_name {
                Some(x) => Some(x.as_str()),
                None => None,
            },
        );
        let provider = match resolved {
            Ok(p) => p,
            Err(e) => {
                return Err(e);
            },
        };
        let email = match read_json_string(value, &email_keys) {
            Some(e) => e,
            None => match summary {
                Some(s) => s.email.clone(),
                None => build_api_key_email(api_key.as_str()),
            },
        };
        let mut account = CodexAccount::new_api_key(
            fallback_id.to_string(),
            email,
            api_key,
            provider.mode,
            provider.base_url,
            provider.provider_id,
            provider.provider_name,
            now,
        );
        let ghost b = account;
        apply_compat_account_metadata(&mut account, value, summary, now);
        let ghost c = account;
        account.plan_type = Some("API_KEY".to_string());
        assert(compat_metadata_applied(b, c, value@, summary_value(summary), now));
        return Ok(Some(account));
    }
    let (tokens, account_id_hint) = match extract_codex_tokens_from_value(value) {
        Some(t) => t,
        None => {
            return Ok(None);
        },
    };
    let email = match read_json_string(value, &email_keys) {
        Some(e) => e,
        None => match summary {
            Some(s) => s.email.clone(),
            None => fallback_id.to_string(),
        },
    };
    let mut account = CodexAccount::new(fallback_id.to_string(), email, tokens, now);
    let id_keys: [&str; 2] = ["account_id", "accountId"];
    let org_keys: [&str; 2] = ["organization_id", "organizationId"];
    assert(id_keys@.map_values(|k: &str| k@) =~= seq!["account_id"@, "accountId"@]);
    assert(org_keys@.map_values(|k: &str| k@) =~= seq!["organization_id"@, "organizationId"@]);
    let account_id = normalize_optional_value(
        match extract_chatgpt_account_id_from_access_token(account.tokens.access_token.as_str()) {
            Some(v) => Some(v),
            None => match account_id_hint {
                Some(v) => Some(v),
                None => read_json_string(value, &id_keys),
            },
        },
    );
    account.account_id = account_id;
    account.organization_id = normalize_optional_value(read_json_string(value, &org_keys));
    let ghost b = account;
    sync_identity_from_tokens(&mut account);
    let ghost c = account;
    apply_compat_account_metadata(&mut account, value, summary, now);
    assert(identity_synced(b, c));
    Ok(Some(account))
}

} // verus!
