//! Keeping a stored account in step with the login that Codex itself holds
//! in its `auth.json`.
use vstd::prelude::*;
use crate::codex::{
    access_token_account_id, access_token_org_id, extract_chatgpt_account_id_from_access_token,
    extract_chatgpt_organization_id_from_access_token, extract_user_info, first_some, id_token_identity,
    mark_token_chain_updated_at, normalize_optional_ref, normalize_optional_value, normalized_opt, CodexAccount,
    CodexAuthTokens, CodexTokens, LocalCodexOAuthSnapshot, ApiProviderConfig, CodexApiProviderMode,
    CodexAuthMode, infer_api_provider_config, is_auth_mode_apikey, non_blank, normalize_api_base_url,
    normalize_api_key, normalized_base_url, opt_ref, provider_view, resolved_provider, local_oauth_snapshot_matches_account,
    missing_account, snapshot_matches, should_accept_authority_snapshot, token_delta,
};
use crate::external::{json_quote, json_string_value, now_refresh_stamp};
use crate::strings::opt_str;
use crate::text::{concat, lower, trim};

verus! {

broadcast use vstd::string::group_string_axioms;

/// A counter moved on by one, stopping at its maximum.
pub open spec fn next_generation(g: u64) -> u64 {
    if g < u64::MAX {
        (g + 1) as u64
    } else {
        u64::MAX
    }
}

/// What `apply_local_oauth_snapshot` makes of `a` (as `b`) at time `now`,
/// saying whether it changed (`changed`): the snapshot's id and access
/// tokens, its refresh token when it has one, and its account id,
/// organization and subscription end where they differ; new tokens start a
/// new link of the token chain.
pub open spec fn snapshot_applied(
    a: CodexAccount,
    b: CodexAccount,
    s: LocalCodexOAuthSnapshot,
    now: i64,
    changed: bool,
) -> bool {
    let refresh = normalized_opt(opt_str(s.tokens.refresh_token));
    let refresh_changed = refresh is Some && opt_str(a.tokens.refresh_token) != refresh;
    let token_changed = a.tokens.id_token@ != s.tokens.id_token@ || a.tokens.access_token@ != s.tokens.access_token@
        || refresh_changed;
    let account_changed = normalized_opt(opt_str(a.account_id)) != opt_str(s.account_id);
    let org_changed = normalized_opt(opt_str(a.organization_id)) != opt_str(s.organization_id);
    let until_changed = normalized_opt(opt_str(a.subscription_active_until)) != opt_str(s.subscription_active_until);
    &&& changed == (token_changed || account_changed || org_changed || until_changed)
    &&& b.tokens.id_token@ == s.tokens.id_token@ && b.tokens.access_token@ == s.tokens.access_token@
    &&& opt_str(b.tokens.refresh_token) == if refresh_changed {
        refresh
    } else {
        opt_str(a.tokens.refresh_token)
    }
    &&& opt_str(b.account_id) == if account_changed {
        opt_str(s.account_id)
    } else {
        opt_str(a.account_id)
    }
    &&& opt_str(b.organization_id) == if org_changed {
        opt_str(s.organization_id)
    } else {
        opt_str(a.organization_id)
    }
    &&& opt_str(b.subscription_active_until) == if until_changed {
        opt_str(s.subscription_active_until)
    } else {
        opt_str(a.subscription_active_until)
    }
    &&& token_changed ==> {
        &&& b.token_generation == next_generation(a.token_generation)
        &&& b.token_updated_at == Some(now)
        &&& b.token_source_mode@ == "managed"@
        &&& !b.requires_reauth && b.reauth_reason is None
    }
    &&& !token_changed ==> {
        &&& b.token_generation == a.token_generation && b.token_updated_at == a.token_updated_at
        &&& b.token_source_mode == a.token_source_mode
        &&& b.requires_reauth == a.requires_reauth && b.reauth_reason == a.reauth_reason
    }
    &&& b == (CodexAccount {
        tokens: b.tokens,
        account_id: b.account_id,
        organization_id: b.organization_id,
        subscription_active_until: b.subscription_active_until,
        token_generation: b.token_generation,
        token_updated_at: b.token_updated_at,
        token_source_mode: b.token_source_mode,
        requires_reauth: b.requires_reauth,
        reauth_reason: b.reauth_reason,
        ..a
    })
}

/// `apply_local_oauth_snapshot`, at time `now`; says whether the account
/// changed.
pub fn apply_local_oauth_snapshot(account: &mut CodexAccount, snapshot: &LocalCodexOAuthSnapshot, now: i64) -> (changed: bool)
    ensures
        snapshot_applied(*old(account), *final(account), *snapshot, now, changed),
{
    let mut changed = false;
    let mut token_changed = false;
    if !crate::text::str_eq(account.tokens.id_token.as_str(), snapshot.tokens.id_token.as_str()) {
        account.tokens.id_token = snapshot.tokens.id_token.clone();
        changed = true;
        token_changed = true;
    }
    if !crate::text::str_eq(account.tokens.access_token.as_str(), snapshot.tokens.access_token.as_str()) {
        account.tokens.access_token = snapshot.tokens.access_token.clone();
        changed = true;
        token_changed = true;
    }
    let refresh = match &snapshot.tokens.refresh_token {
        Some(r) => normalize_optional_ref(Some(r.as_str())),
        None => None,
    };
    match refresh {
        Some(r) => {
            if !crate::strings::opt_string_eq(&account.tokens.refresh_token, &Some(r.clone())) {
                account.tokens.refresh_token = Some(r);
                changed = true;
                token_changed = true;
            }
        },
        None => {},
    }
    let own_account_id = match &account.account_id {
        Some(v) => normalize_optional_ref(Some(v.as_str())),
        None => None,
    };
    if !crate::strings::opt_string_eq(&own_account_id, &snapshot.account_id) {
        account.account_id = crate::strings::clone_opt_string(&snapshot.account_id);
        changed = true;
    }
    let own_org = match &account.organization_id {
        Some(v) => normalize_optional_ref(Some(v.as_str())),
        None => None,
    };
    if !crate::strings::opt_string_eq(&own_org, &snapshot.organization_id) {
        account.organization_id = crate::strings::clone_opt_string(&snapshot.organization_id);
        changed = true;
    }
    let own_until = match &account.subscription_active_until {
        Some(v) => normalize_optional_ref(Some(v.as_str())),
        None => None,
    };
    if !crate::strings::opt_string_eq(&own_until, &snapshot.subscription_active_until) {
        account.subscription_active_until = crate::strings::clone_opt_string(&snapshot.subscription_active_until);
        changed = true;
    }
    if token_changed {
        mark_token_chain_updated_at(account, now);
    }
    changed
}

/// What `build_local_oauth_snapshot` reads from the tokens of an
/// `auth.json` file: nothing when the id token cannot be read; else the
/// tokens, the email and subscription end of the id token, the account id
/// of the file, else of the access token, else of the id token, and the
/// organization of the access token, else of the id token.
pub open spec fn local_snapshot_of(tokens: CodexAuthTokens, s: LocalCodexOAuthSnapshot) -> bool {
    match id_token_identity(tokens.id_token@) {
        Err(_) => false,
        Ok(v) => {
            &&& s.tokens.id_token == tokens.id_token && s.tokens.access_token == tokens.access_token
            &&& s.tokens.refresh_token == tokens.refresh_token
            &&& s.email@ == v.0
            &&& opt_str(s.subscription_active_until) == v.3
            &&& opt_str(s.account_id) == normalized_opt(
                first_some(opt_str(tokens.account_id), first_some(access_token_account_id(tokens.access_token@), v.4)),
            )
            &&& opt_str(s.organization_id) == normalized_opt(first_some(access_token_org_id(tokens.access_token@), v.5))
            &&& s.last_refresh_at is None
        },
    }
}

/// `build_local_oauth_snapshot`.
pub fn build_local_oauth_snapshot(tokens: CodexAuthTokens) -> (r: Option<LocalCodexOAuthSnapshot>)
    ensures
        id_token_identity(tokens.id_token@) is Err ==> r is None,
        id_token_identity(tokens.id_token@) is Ok ==> (r matches Some(s) && local_snapshot_of(tokens, s)),
{
    let info = extract_user_info(tokens.id_token.as_str());
    let (email, _user, _plan, subscription_active_until, id_token_account_id, id_token_org_id) = match info {
        Ok(t) => t,
        Err(_) => {
            return None;
        },
    };
    let CodexAuthTokens { id_token, access_token, refresh_token, account_id } = tokens;
    let account_id = normalize_optional_value(
        match account_id {
            Some(v) => Some(v),
            None => match extract_chatgpt_account_id_from_access_token(access_token.as_str()) {
                Some(v) => Some(v),
                None => id_token_account_id,
            },
        },
    );
    let organization_id = normalize_optional_value(
        match extract_chatgpt_organization_id_from_access_token(access_token.as_str()) {
            Some(v) => Some(v),
            None => id_token_org_id,
        },
    );
    Some(
        LocalCodexOAuthSnapshot {
            tokens: CodexTokens { id_token, access_token, refresh_token },
            email,
            subscription_active_until,
            account_id,
            organization_id,
            last_refresh_at: None,
        },
    )
}

// ---------------------------------------------------------------------------
// Codex's auth.json
// ---------------------------------------------------------------------------

/// How a JSON object is laid out: compact (`{"k":v,"l":w}`), or as
/// serde_json's pretty printer writes it, two spaces per level
/// (`{\n  "k": v,\n  "l": w\n}`).
pub open spec fn json_open(pretty: bool, depth: nat) -> Seq<char> {
    if pretty {
        "{"@ + json_newline(depth + 1)
    } else {
        "{"@
    }
}

/// A line break followed by the indentation of `depth` levels.
pub open spec fn json_newline(depth: nat) -> Seq<char>
    decreases depth,
{
    if depth == 0 {
        "\n"@
    } else {
        json_newline((depth - 1) as nat) + "  "@
    }
}

/// What stands between two members of an object at `depth`.
pub open spec fn json_sep(pretty: bool, depth: nat) -> Seq<char> {
    if pretty {
        ","@ + json_newline(depth + 1)
    } else {
        ","@
    }
}

/// The end of an object at `depth`.
pub open spec fn json_close(pretty: bool, depth: nat) -> Seq<char> {
    if pretty {
        json_newline(depth) + "}"@
    } else {
        "}"@
    }
}

/// A JSON object member whose value is already JSON text.
pub open spec fn json_field(key: Seq<char>, value: Seq<char>, pretty: bool) -> Seq<char> {
    json_quote(key) + (if pretty {
        ": "@
    } else {
        ":"@
    }) + value
}

/// A JSON object member with a string value after the separator, or
/// nothing when it is absent.
pub open spec fn json_opt_field(key: Seq<char>, value: Option<Seq<char>>, pretty: bool, depth: nat) -> Seq<char> {
    match value {
        Some(v) => json_sep(pretty, depth) + json_field(key, json_quote(v), pretty),
        None => Seq::empty(),
    }
}

/// The `tokens` object of an OAuth login, one level deep: access and id
/// tokens, the account id when known and the refresh token when it is not
/// blank; keys in the order serde_json keeps them.
pub open spec fn auth_tokens_json(a: CodexAccount, pretty: bool) -> Seq<char> {
    json_open(pretty, 1) + json_field("access_token"@, json_quote(a.tokens.access_token@), pretty) + json_opt_field(
        "account_id"@,
        opt_str(a.account_id),
        pretty,
        1,
    ) + json_sep(pretty, 1) + json_field("id_token"@, json_quote(a.tokens.id_token@), pretty) + json_opt_field(
        "refresh_token"@,
        normalized_opt(opt_str(a.tokens.refresh_token)),
        pretty,
        1,
    ) + json_close(pretty, 1)
}

/// Codex's `auth.json` for an account with the refresh moment
/// `refreshed_at`, laid out compactly or pretty: an API key account gives
/// its key in API key mode (refused without a key); an OAuth account gives
/// its tokens, a null API key and the refresh moment (refused without an
/// access token).
pub open spec fn auth_file_text(a: CodexAccount, refreshed_at: Seq<char>, pretty: bool) -> Result<Seq<char>, Seq<char>> {
    if a.auth_mode == crate::codex::CodexAuthMode::Apikey {
        match normalized_opt(opt_str(a.openai_api_key)) {
            None => Err("API Key 账号缺少 OPENAI_API_KEY"@),
            Some(key) => Ok(
                json_open(pretty, 0) + json_field("OPENAI_API_KEY"@, json_quote(key), pretty) + json_sep(pretty, 0)
                    + json_field("auth_mode"@, json_quote("apikey"@), pretty) + json_close(pretty, 0),
            ),
        }
    } else if trim(a.tokens.access_token@).len() == 0 {
        Err("OAuth 账号缺少 access_token，无法写入 auth.json"@)
    } else {
        Ok(
            json_open(pretty, 0) + json_field("OPENAI_API_KEY"@, "null"@, pretty) + json_sep(pretty, 0) + json_field(
                "last_refresh"@,
                json_quote(refreshed_at),
                pretty,
            ) + json_sep(pretty, 0) + json_field("tokens"@, auth_tokens_json(a, pretty), pretty) + json_close(
                pretty,
                0,
            ),
        )
    }
}

/// `build_auth_file_value` with the refresh moment `refreshed_at`: the
/// compact JSON text of `auth.json`.
pub open spec fn auth_file_json(a: CodexAccount, refreshed_at: Seq<char>) -> Result<Seq<char>, Seq<char>> {
    auth_file_text(a, refreshed_at, false)
}

/// The layout's opening of an object at `depth` (0 or 1).
fn open_text(pretty: bool, depth: usize) -> (r: &'static str)
    requires
        depth <= 1,
    ensures
        r@ == json_open(pretty, depth as nat),
{
    proof {
        reveal_with_fuel(json_newline, 3);
    }
    if !pretty {
        "{"
    } else if depth == 0 {
        proof {
            reveal_strlit("{\n  ");
            reveal_strlit("{");
            reveal_strlit("\n");
            reveal_strlit("  ");
            assert("{\n  "@ =~= "{"@ + json_newline(1));
        }
        "{\n  "
    } else {
        proof {
            reveal_strlit("{\n    ");
            reveal_strlit("{");
            reveal_strlit("\n");
            reveal_strlit("  ");
            assert("{\n    "@ =~= "{"@ + json_newline(2));
        }
        "{\n    "
    }
}

/// The layout's separator of members at `depth` (0 or 1).
fn sep_text(pretty: bool, depth: usize) -> (r: &'static str)
    requires
        depth <= 1,
    ensures
        r@ == json_sep(pretty, depth as nat),
{
    proof {
        reveal_with_fuel(json_newline, 3);
    }
    if !pretty {
        ","
    } else if depth == 0 {
        proof {
            reveal_strlit(",\n  ");
            reveal_strlit(",");
            reveal_strlit("\n");
            reveal_strlit("  ");
            assert(",\n  "@ =~= ","@ + json_newline(1));
        }
        ",\n  "
    } else {
        proof {
            reveal_strlit(",\n    ");
            reveal_strlit(",");
            reveal_strlit("\n");
            reveal_strlit("  ");
            assert(",\n    "@ =~= ","@ + json_newline(2));
        }
        ",\n    "
    }
}

/// The layout's end of an object at `depth` (0 or 1).
fn close_text(pretty: bool, depth: usize) -> (r: &'static str)
    requires
        depth <= 1,
    ensures
        r@ == json_close(pretty, depth as nat),
{
    proof {
        reveal_with_fuel(json_newline, 3);
    }
    if !pretty {
        "}"
    } else if depth == 0 {
        proof {
            reveal_strlit("\n}");
            reveal_strlit("}");
            reveal_strlit("\n");
            assert("\n}"@ =~= json_newline(0) + "}"@);
        }
        "\n}"
    } else {
        proof {
            reveal_strlit("\n  }");
            reveal_strlit("}");
            reveal_strlit("\n");
            reveal_strlit("  ");
            assert("\n  }"@ =~= json_newline(1) + "}"@);
        }
        "\n  }"
    }
}

/// The JSON member `"key":value` in the layout.
fn json_field_text(key: &str, value: &str, pretty: bool) -> (r: String)
    ensures
        r@ == json_field(key@, value@, pretty),
{
    let quoted = json_string_value(key);
    let with_colon = if pretty {
        concat(quoted.as_str(), ": ")
    } else {
        concat(quoted.as_str(), ":")
    };
    concat(with_colon.as_str(), value)
}

/// `prefix` followed by the separator and `"key":value` when the value is
/// present.
fn with_opt_field(prefix: &str, key: &str, value: Option<String>, pretty: bool) -> (r: String)
    ensures
        r@ == prefix@ + json_opt_field(key@, opt_str(value), pretty, 1),
{
    match value {
        Some(v) => {
            let field = json_field_text(key, json_string_value(v.as_str()).as_str(), pretty);
            let sep = sep_text(pretty, 1);
            let comma = concat(prefix, sep);
            let r = concat(comma.as_str(), field.as_str());
            assert(r@ == prefix@ + (sep@ + field@));
            r
        },
        None => {
            let r = concat(prefix, "");
            proof {
                reveal_strlit("");
            }
            assert(r@ == prefix@);
            r
        },
    }
}

/// The `tokens` object of an OAuth login.
fn auth_tokens_text(account: &CodexAccount, pretty: bool) -> (r: String)
    ensures
        r@ == auth_tokens_json(*account, pretty),
{
    let access = json_field_text(
        "access_token",
        json_string_value(account.tokens.access_token.as_str()).as_str(),
        pretty,
    );
    let a = concat(open_text(pretty, 1), access.as_str());
    let b = with_opt_field(a.as_str(), "account_id", crate::strings::clone_opt_string(&account.account_id), pretty);
    let id = json_field_text("id_token", json_string_value(account.tokens.id_token.as_str()).as_str(), pretty);
    let c = concat(b.as_str(), sep_text(pretty, 1));
    let d = concat(c.as_str(), id.as_str());
    let refresh = match &account.tokens.refresh_token {
        Some(t) => normalize_optional_ref(Some(t.as_str())),
        None => None,
    };
    let e = with_opt_field(d.as_str(), "refresh_token", refresh, pretty);
    concat(e.as_str(), close_text(pretty, 1))
}

/// The JSON text of `auth.json` for an account, given the refresh moment,
/// laid out compactly or pretty.
pub fn auth_file_text_with_refresh(account: &CodexAccount, refreshed_at: &str, pretty: bool) -> (r: Result<
    String,
    String,
>)
    ensures
        match (r, auth_file_text(*account, refreshed_at@, pretty)) {
            (Ok(t), Ok(s)) => t@ == s,
            (Err(e), Err(s)) => e@ == s,
            _ => false,
        },
{
    if account.is_api_key_auth() {
        let key = match &account.openai_api_key {
            Some(k) => normalize_optional_ref(Some(k.as_str())),
            None => None,
        };
        let key = match key {
            Some(k) => k,
            None => {
                return Err("API Key 账号缺少 OPENAI_API_KEY".to_string());
            },
        };
        let f1 = json_field_text("OPENAI_API_KEY", json_string_value(key.as_str()).as_str(), pretty);
        let f2 = json_field_text("auth_mode", json_string_value("apikey").as_str(), pretty);
        let a = concat(open_text(pretty, 0), f1.as_str());
        let b = concat(a.as_str(), sep_text(pretty, 0));
        let c = concat(b.as_str(), f2.as_str());
        return Ok(concat(c.as_str(), close_text(pretty, 0)));
    }
    if crate::text::trimmed(account.tokens.access_token.as_str()).len() == 0 {
        return Err("OAuth 账号缺少 access_token，无法写入 auth.json".to_string());
    }
    let tokens = auth_tokens_text(account, pretty);
    let f1 = json_field_text("OPENAI_API_KEY", "null", pretty);
    let f2 = json_field_text("last_refresh", json_string_value(refreshed_at).as_str(), pretty);
    let f3 = json_field_text("tokens", tokens.as_str(), pretty);
    let a = concat(open_text(pretty, 0), f1.as_str());
    let b = concat(a.as_str(), sep_text(pretty, 0));
    let c = concat(b.as_str(), f2.as_str());
    let d = concat(c.as_str(), sep_text(pretty, 0));
    let e = concat(d.as_str(), f3.as_str());
    Ok(concat(e.as_str(), close_text(pretty, 0)))
}

/// The compact JSON text of `auth.json` for an account, given the refresh
/// moment.
pub fn auth_file_json_with_refresh(account: &CodexAccount, refreshed_at: &str) -> (r: Result<String, String>)
    ensures
        match (r, auth_file_json(*account, refreshed_at@)) {
            (Ok(t), Ok(s)) => t@ == s,
            (Err(e), Err(s)) => e@ == s,
            _ => false,
        },
{
    auth_file_text_with_refresh(account, refreshed_at, false)
}

/// `build_auth_file_value`: the JSON text of Codex's `auth.json` for an
/// account, stamped with the current moment as its last refresh. Refused
/// exactly as `auth_file_json` says; otherwise the text is that of some
/// refresh moment.
pub fn build_auth_file_value(account: &CodexAccount) -> (r: Result<String, String>)
    ensures
        match r {
            Ok(t) => exists|at: Seq<char>| auth_file_json(*account, at) == Ok::<Seq<char>, Seq<char>>(t@),
            Err(e) => forall|at: Seq<char>| auth_file_json(*account, at) == Err::<Seq<char>, Seq<char>>(e@),
        },
{
    let stamp = now_refresh_stamp();
    let r = auth_file_json_with_refresh(account, stamp.as_str());
    proof {
        assert(r matches Ok(t) ==> auth_file_json(*account, stamp@) == Ok::<Seq<char>, Seq<char>>(t@));
        assert forall|at: Seq<char>| r is Err implies #[trigger] auth_file_json(*account, at) == auth_file_json(
            *account,
            stamp@,
        ) by {}
    }
    r
}

// ---------------------------------------------------------------------------
// An API key account and the provider Codex is set up with
// ---------------------------------------------------------------------------

/// A provider as `(mode, base URL, provider id, provider name)`.
pub type ProviderView = (CodexApiProviderMode, Option<Seq<char>>, Option<Seq<char>>, Option<Seq<char>>);

/// What `infer_api_provider_config` gives for its arguments.
pub open spec fn inferred_provider(
    base_url: Option<Seq<char>>,
    mode: Option<CodexApiProviderMode>,
    provider_id: Option<Seq<char>>,
    provider_name: Option<Seq<char>>,
) -> ProviderView {
    match resolved_provider(base_url, mode, provider_id, provider_name) {
        Ok(v) => v,
        Err(_) => (CodexApiProviderMode::OpenaiBuiltin, None, None, None),
    }
}

/// The provider an account records, as `infer_api_provider_config` reads it.
pub open spec fn account_provider(a: CodexAccount) -> ProviderView {
    inferred_provider(
        opt_str(a.api_base_url),
        Some(a.api_provider_mode),
        opt_str(a.api_provider_id),
        opt_str(a.api_provider_name),
    )
}

/// The provider that Codex's local files set up for the API key account
/// `a`, when they hold that account's own key: an `auth.json` in API key
/// mode (or one with a key and no tokens) whose key is the account's. The
/// provider takes the `auth.json` base URL, else that of `config.toml`;
/// when `config.toml` names the runtime provider the account's own mode,
/// id and name stand, else those of `config.toml`.
pub open spec fn local_state_provider(
    a: CodexAccount,
    auth_mode: Option<Seq<char>>,
    auth_api_key: Option<Seq<char>>,
    auth_has_tokens: bool,
    auth_base_url: Option<Seq<char>>,
    config: ProviderView,
) -> Option<ProviderView> {
    let local_key = match auth_api_key {
        Some(k) => non_blank(k),
        None => None,
    };
    let apikey_mode = match auth_mode {
        Some(m) => lower(trim(m)) == "apikey"@,
        None => false,
    };
    if !(apikey_mode || (!auth_has_tokens && local_key is Some)) {
        None
    } else {
        match (normalized_opt(local_key), normalized_opt(opt_str(a.openai_api_key))) {
            (Some(l), Some(k)) => if l != k {
                None
            } else {
                let runtime = config.2 == Some("codex_local_access"@);
                let mode = if runtime { a.api_provider_mode } else { config.0 };
                let provider_id = if runtime { opt_str(a.api_provider_id) } else { config.2 };
                let provider_name = if runtime { opt_str(a.api_provider_name) } else { config.3 };
                Some(inferred_provider(first_some(normalized_base_url(auth_base_url), config.1), Some(mode), provider_id, provider_name))
            },
            _ => None,
        }
    }
}

/// `sync_api_key_account_from_local_state`, given what Codex's `auth.json`
/// holds (its auth mode, its API key when that is a string, whether it has
/// tokens, its base URL) and the provider its `config.toml` sets up: an API
/// key account whose key is the local one takes the local provider when it
/// differs from the one it records; it says whether it changed, and then
/// the account is to be saved. Nothing else of the account changes.
pub fn sync_api_key_account_from_local_state(
    account: &mut CodexAccount,
    auth_mode: Option<&str>,
    auth_api_key: Option<&str>,
    auth_has_tokens: bool,
    auth_base_url: Option<&str>,
    config_provider: &ApiProviderConfig,
) -> (changed: bool)
    ensures
        match (if old(account).auth_mode == CodexAuthMode::Apikey {
            local_state_provider(
                *old(account),
                opt_ref(auth_mode),
                opt_ref(auth_api_key),
                auth_has_tokens,
                opt_ref(auth_base_url),
                provider_view(*config_provider),
            )
        } else {
            None
        }) {
            Some(p) if p != account_provider(*old(account)) => {
                &&& changed
                &&& (final(account).api_provider_mode, opt_str(final(account).api_base_url), opt_str(
                    final(account).api_provider_id,
                ), opt_str(final(account).api_provider_name)) == p
                &&& *final(account) == (CodexAccount {
                    api_base_url: final(account).api_base_url,
                    api_provider_mode: final(account).api_provider_mode,
                    api_provider_id: final(account).api_provider_id,
                    api_provider_name: final(account).api_provider_name,
                    ..*old(account)
                })
            },
            _ => !changed && *final(account) == *old(account),
        },
{
    if !account.is_api_key_auth() {
        return false;
    }
    let is_apikey_mode = is_auth_mode_apikey(auth_mode);
    let local_api_key = match auth_api_key {
        Some(k) => normalize_api_key(k),
        None => None,
    };
    if !(is_apikey_mode || (!auth_has_tokens && local_api_key.is_some())) {
        return false;
    }
    let local = match &local_api_key {
        Some(k) => normalize_optional_ref(Some(k.as_str())),
        None => None,
    };
    let local = match local {
        Some(k) => k,
        None => {
            return false;
        },
    };
    let own = match &account.openai_api_key {
        Some(k) => normalize_optional_ref(Some(k.as_str())),
        None => None,
    };
    let own = match own {
        Some(k) => k,
        None => {
            return false;
        },
    };
    if !crate::text::str_eq(local.as_str(), own.as_str()) {
        return false;
    }
    let runtime = match &config_provider.provider_id {
        Some(id) => crate::text::str_eq(id.as_str(), "codex_local_access"),
        None => false,
    };
    proof {
        reveal_strlit("codex_local_access");
    }
    let mode = if runtime { account.api_provider_mode } else { config_provider.mode };
    let provider_id = if runtime {
        crate::strings::clone_opt_string(&account.api_provider_id)
    } else {
        crate::strings::clone_opt_string(&config_provider.provider_id)
    };
    let provider_name = if runtime {
        crate::strings::clone_opt_string(&account.api_provider_name)
    } else {
        crate::strings::clone_opt_string(&config_provider.provider_name)
    };
    let base_url = match normalize_api_base_url(auth_base_url) {
        Some(b) => Some(b),
        None => crate::strings::clone_opt_string(&config_provider.base_url),
    };
    let current = infer_api_provider_config(
        as_opt_str(&base_url),
        Some(mode),
        as_opt_str(&provider_id),
        as_opt_str(&provider_name),
    );
    let recorded = infer_api_provider_config(
        as_opt_str(&account.api_base_url),
        Some(account.api_provider_mode),
        as_opt_str(&account.api_provider_id),
        as_opt_str(&account.api_provider_name),
    );
    if same_provider(&current, &recorded) {
        return false;
    }
    account.api_base_url = current.base_url;
    account.api_provider_mode = current.mode;
    account.api_provider_id = current.provider_id;
    account.api_provider_name = current.provider_name;
    true
}

/// An optional text borrowed.
fn as_opt_str(o: &Option<String>) -> (r: Option<&str>)
    ensures
        opt_ref(r) == opt_str(*o),
{
    match o {
        Some(s) => Some(s.as_str()),
        None => None,
    }
}

/// Whether two providers are the same.
fn same_provider(a: &ApiProviderConfig, b: &ApiProviderConfig) -> (r: bool)
    ensures
        r == (provider_view(*a) == provider_view(*b)),
{
    let same_mode = match (a.mode, b.mode) {
        (CodexApiProviderMode::OpenaiBuiltin, CodexApiProviderMode::OpenaiBuiltin) => true,
        (CodexApiProviderMode::Custom, CodexApiProviderMode::Custom) => true,
        _ => false,
    };
    same_mode && crate::strings::opt_string_eq(&a.base_url, &b.base_url) && crate::strings::opt_string_eq(
        &a.provider_id,
        &b.provider_id,
    ) && crate::strings::opt_string_eq(&a.provider_name, &b.provider_name)
}

// ---------------------------------------------------------------------------
// Reading a Codex home's login back into the store
// ---------------------------------------------------------------------------

/// `sync_account_from_auth_dir_if_current` at time `now`, given the login
/// the home holds: when it is the account's own, it is applied; says
/// whether it was the account's and whether the account changed (then it
/// is saved).
pub fn sync_account_from_auth_dir_if_current(
    account: &mut CodexAccount,
    snapshot: Option<&LocalCodexOAuthSnapshot>,
    now: i64,
) -> (r: (bool, bool))
    ensures
        match snapshot {
            Some(s) => if snapshot_matches(*old(account), *s) {
                r.0 && snapshot_applied(*old(account), *final(account), *s, now, r.1)
            } else {
                !r.0 && !r.1 && *final(account) == *old(account)
            },
            None => !r.0 && !r.1 && *final(account) == *old(account),
        },
{
    let s = match snapshot {
        Some(s) => s,
        None => {
            return (false, false);
        },
    };
    if !local_oauth_snapshot_matches_account(s, account) {
        return (false, false);
    }
    let changed = apply_local_oauth_snapshot(account, s, now);
    (true, changed)
}

/// `sync_account_from_auth_dir` at time `now`, given the stored account of
/// `account_id` and the login the home holds: the account, with the login
/// applied when it is its own, and whether it changed (then it is saved).
/// An API key account comes back as it is.
pub fn sync_account_from_auth_dir(
    account_id: &str,
    loaded: Option<CodexAccount>,
    snapshot: Option<&LocalCodexOAuthSnapshot>,
    now: i64,
) -> (r: Result<(CodexAccount, bool), String>)
    ensures
        match loaded {
            None => r matches Err(e) && e@ == missing_account(account_id@),
            Some(a) => r matches Ok((b, changed)) && if a.auth_mode == CodexAuthMode::Apikey {
                b == a && !changed
            } else {
                match snapshot {
                    Some(s) => if snapshot_matches(a, *s) {
                        snapshot_applied(a, b, *s, now, changed)
                    } else {
                        b == a && !changed
                    },
                    None => b == a && !changed,
                }
            },
        },
{
    let mut account = match loaded {
        Some(a) => a,
        None => {
            return Err(concat("账号不存在: ", account_id));
        },
    };
    if account.is_api_key_auth() {
        return Ok((account, false));
    }
    let (_, changed) = sync_account_from_auth_dir_if_current(&mut account, snapshot, now);
    Ok((account, changed))
}

/// The OAuth accounts among `accounts` whose login is `s`.
pub open spec fn owns_login(a: CodexAccount, s: LocalCodexOAuthSnapshot) -> bool {
    a.auth_mode != CodexAuthMode::Apikey && snapshot_matches(a, s)
}

/// `sync_current_official_account_from_dir` at time `now`, given the
/// stored accounts and the login Codex's home holds: the first OAuth
/// account whose login it is, with the login applied, and whether it
/// changed (then it is saved); none when there is no login or no such
/// account.
pub fn sync_current_official_account_from_dir(
    accounts: Vec<CodexAccount>,
    snapshot: Option<&LocalCodexOAuthSnapshot>,
    now: i64,
) -> (r: Option<(CodexAccount, bool)>)
    ensures
        snapshot is None ==> r is None,
        snapshot is Some && r is None ==> forall|i: int|
            0 <= i < accounts@.len() ==> !#[trigger] owns_login(accounts@[i], *snapshot->0),
        r matches Some((b, changed)) ==> snapshot is Some && exists|i: int|
            0 <= i < accounts@.len() && #[trigger] owns_login(accounts@[i], *snapshot->0) && (forall|j: int|
                0 <= j < i ==> !#[trigger] owns_login(accounts@[j], *snapshot->0)) && snapshot_applied(
                accounts@[i],
                b,
                *snapshot->0,
                now,
                changed,
            ),
{
    let s = match snapshot {
        Some(s) => s,
        None => {
            return None;
        },
    };
    let ghost all = accounts@;
    let mut remaining = accounts;
    let mut i: usize = 0;
    while i < remaining.len()
        invariant
            i <= remaining.len(),
            remaining@ == all,
            all == accounts@,
            snapshot == Some(s),
            forall|j: int| 0 <= j < i ==> !#[trigger] owns_login(all[j], *s),
        decreases remaining.len() - i,
    {
        let owned = !remaining[i].is_api_key_auth() && local_oauth_snapshot_matches_account(s, &remaining[i]);
        if owned {
            let mut account = remaining.remove(i);
            assert(account == all[i as int]);
            let changed = apply_local_oauth_snapshot(&mut account, s, now);
            assert(owns_login(all[i as int], *s));
            assert(snapshot->0 == s);
            assert(owns_login(accounts@[i as int], *snapshot->0));
            assert(snapshot_applied(accounts@[i as int], account, *snapshot->0, now, changed));
            assert(forall|j: int| 0 <= j < i ==> !#[trigger] owns_login(accounts@[j], *snapshot->0));
            return Some((account, changed));
        }
        i += 1;
    }
    None
}

/// Whether a login that is the account's own is newer than the stored one:
/// it differs, and was refreshed no earlier than the stored tokens were
/// updated, or the stored access token has expired and its has not.
pub open spec fn authority_is_newer(
    a: CodexAccount,
    s: LocalCodexOAuthSnapshot,
    account_token_expired: bool,
    snapshot_token_expired: bool,
) -> bool {
    token_delta(a, s) && ((match s.last_refresh_at {
        Some(v) => v >= match a.token_updated_at {
            Some(t) => t,
            None => 0,
        },
        None => false,
    }) || (account_token_expired && !snapshot_token_expired))
}

/// `sync_account_from_authority_dir_if_current` at time `now`, given the
/// login a home holds and whether the stored and the home's access tokens
/// have expired: the home's login is applied only when it is the account's
/// own and newer; says whether the account changed (then it is saved).
pub fn sync_account_from_authority_dir_if_current(
    account: &mut CodexAccount,
    snapshot: Option<&LocalCodexOAuthSnapshot>,
    account_token_expired: bool,
    snapshot_token_expired: bool,
    now: i64,
) -> (changed: bool)
    ensures
        match snapshot {
            Some(s) => if snapshot_matches(*old(account), *s) && authority_is_newer(
                *old(account),
                *s,
                account_token_expired,
                snapshot_token_expired,
            ) {
                snapshot_applied(*old(account), *final(account), *s, now, changed)
            } else {
                !changed && *final(account) == *old(account)
            },
            None => !changed && *final(account) == *old(account),
        },
{
    let s = match snapshot {
        Some(s) => s,
        None => {
            return false;
        },
    };
    if !local_oauth_snapshot_matches_account(s, account) {
        return false;
    }
    if !should_accept_authority_snapshot(account, s, account_token_expired, snapshot_token_expired) {
        return false;
    }
    apply_local_oauth_snapshot(account, s, now)
}

} // verus!
