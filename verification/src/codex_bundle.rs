//! An account's bundle for a Codex home: the files written there, in the
//! order they are written (`auth.json`, `config.toml`, the managed
//! projection), and the error that stops the writing. The caller writes
//! them.
use vstd::prelude::*;
use crate::codex::{
    infer_api_provider_config, normalize_api_key, normalized_opt, resolved_provider, ApiProviderConfig, CodexAccount,
    CodexApiProviderMode, CodexAuthMode,
};
use crate::codex_config::{
    api_key_config_text, provider_written, toml_error, write_api_key_provider_to_config_toml,
    write_api_provider_to_config_toml,
};
use crate::codex_projection::{build_managed_projection, AccountBundlePlan, CodexManagedAuthProjection};
use crate::codex_sync::{auth_file_text, auth_file_text_with_refresh};
use crate::external::{now_refresh_stamp, toml_doc};
use crate::strings::{opt_str, strs};
use crate::text::trim;

verus! {

broadcast use vstd::string::group_string_axioms;

/// One file of a bundle.
#[derive(Debug)]
pub enum BundleWrite {
    /// The text of `auth.json`.
    AuthJson(String),
    /// The text of `config.toml`.
    ConfigToml(String),
    /// The managed projection that marks the home as written by the
    /// application.
    Projection(CodexManagedAuthProjection),
}

/// One file of a bundle, as texts; a projection as its version, writer,
/// account id, email, token generation and time.
pub enum BundleWriteView {
    AuthJson(Seq<char>),
    ConfigToml(Seq<char>),
    Projection((u32, Seq<char>, Seq<char>, Seq<char>, u64, i64)),
}

/// The files of a bundle, in order, and the error that stops the writing.
#[derive(Debug)]
pub struct AccountBundleWrites {
    pub writes: Vec<BundleWrite>,
    pub stop: Option<String>,
}

/// A file as texts.
pub open spec fn write_view(w: BundleWrite) -> BundleWriteView {
    match w {
        BundleWrite::AuthJson(t) => BundleWriteView::AuthJson(t@),
        BundleWrite::ConfigToml(t) => BundleWriteView::ConfigToml(t@),
        BundleWrite::Projection(p) => BundleWriteView::Projection(
            (p.version, p.writer@, p.account_id@, p.email@, p.token_generation, p.written_at),
        ),
    }
}

/// The files of a bundle as texts.
pub open spec fn writes_view(ws: Seq<BundleWrite>) -> Seq<BundleWriteView> {
    ws.map_values(|w: BundleWrite| write_view(w))
}

/// The projection written for an account at time `now`.
pub open spec fn projection_view(a: CodexAccount, now: i64) -> BundleWriteView {
    BundleWriteView::Projection((1, "cockpit"@, a.id@, a.email@, a.token_generation, now))
}

/// The provider set up for an OAuth account: the built-in one, no base URL.
pub open spec fn builtin_provider() -> ApiProviderConfig {
    ApiProviderConfig { mode: CodexApiProviderMode::OpenaiBuiltin, base_url: None, provider_id: None, provider_name: None }
}

/// What `write_api_provider_to_config_toml` gives for the built-in provider
/// without a base URL, on the file's text (`None` when there is no file).
pub open spec fn builtin_config_text(config: Option<Seq<char>>, managed_ids: Seq<Seq<char>>) -> Result<
    Option<Seq<char>>,
    Seq<char>,
> {
    match config {
        None => Ok(None),
        Some(e) => {
            let written = if trim(e).len() != 0 {
                match toml_doc(e) {
                    Err(err) => Err(toml_error(err)),
                    Ok(d) => provider_written(d, builtin_provider(), managed_ids),
                }
            } else {
                provider_written(Seq::empty(), builtin_provider(), managed_ids)
            };
            match written {
                Ok(t) => Ok(Some(t)),
                Err(err) => Err(err),
            }
        },
    }
}

/// The provider an API key account is set up with (mode, base URL, id,
/// name).
pub open spec fn account_provider(a: CodexAccount) -> (
    CodexApiProviderMode,
    Option<Seq<char>>,
    Option<Seq<char>>,
    Option<Seq<char>>,
) {
    match resolved_provider(opt_str(a.api_base_url), Some(a.api_provider_mode), opt_str(a.api_provider_id), opt_str(a.api_provider_name)) {
        Ok(v) => v,
        Err(_) => (CodexApiProviderMode::OpenaiBuiltin, None, None, None),
    }
}

/// The `config.toml` an API key account's provider and key make of the
/// file's text (empty when there is no file).
pub open spec fn api_key_account_config(a: CodexAccount, config: Option<Seq<char>>, managed_ids: Seq<Seq<char>>) -> Result<
    Seq<char>,
    Seq<char>,
> {
    match normalized_opt(opt_str(a.openai_api_key)) {
        None => Err("API Key 账号缺少 OPENAI_API_KEY"@),
        Some(k) => api_key_config_text(
            match config {
                Some(c) => c,
                None => Seq::empty(),
            },
            account_provider(a).1,
            account_provider(a).3,
            k,
            managed_ids,
        ),
    }
}

/// An account's own bundle: `auth.json` (laid out as serde_json's pretty
/// printer writes it, its last refresh stamped `stamp`), then `config.toml` (the account's provider for an API
/// key account, else the built-in one), then the projection at time `now`;
/// the files written, the error that stops them, and the `config.toml`
/// text after them (`None` when there is no file).
pub open spec fn own_bundle(
    a: CodexAccount,
    config: Option<Seq<char>>,
    managed_ids: Seq<Seq<char>>,
    now: i64,
    stamp: Seq<char>,
) -> (Seq<BundleWriteView>, Option<Seq<char>>, Option<Seq<char>>) {
    match auth_file_text(a, stamp, true) {
        Err(e) => (Seq::empty(), Some(e), config),
        Ok(t) => {
            let w = seq![BundleWriteView::AuthJson(t)];
            let conf = if a.auth_mode == CodexAuthMode::Apikey {
                match api_key_account_config(a, config, managed_ids) {
                    Ok(x) => Ok(Some(x)),
                    Err(e) => Err(e),
                }
            } else {
                builtin_config_text(config, managed_ids)
            };
            match conf {
                Err(e) => (w, Some(e), config),
                Ok(None) => (w.push(projection_view(a, now)), None, config),
                Ok(Some(x)) => (w.push(BundleWriteView::ConfigToml(x)).push(projection_view(a, now)), None, Some(x)),
            }
        },
    }
}

/// An account's bundle with its plan: its own bundle,
/// or the bound OAuth account's bundle followed by the API key account's
/// provider and key in `config.toml`.
pub open spec fn account_bundle(
    a: CodexAccount,
    bound: Option<CodexAccount>,
    config: Option<Seq<char>>,
    managed_ids: Seq<Seq<char>>,
    now: i64,
    stamp: Seq<char>,
) -> (Seq<BundleWriteView>, Option<Seq<char>>) {
    match bound {
        None => {
            let b = own_bundle(a, config, managed_ids, now, stamp);
            (b.0, b.1)
        },
        Some(o) => {
            let b = own_bundle(o, config, managed_ids, now, stamp);
            if b.1 is Some {
                (b.0, b.1)
            } else {
                match api_key_account_config(a, b.2, managed_ids) {
                    Ok(x) => (b.0.push(BundleWriteView::ConfigToml(x)), None),
                    Err(e) => (b.0, Some(e)),
                }
            }
        },
    }
}

/// The plan's bound account, if any.
pub open spec fn plan_bound(plan: AccountBundlePlan) -> Option<CodexAccount> {
    match plan {
        AccountBundlePlan::Own => None,
        AccountBundlePlan::WithBoundOAuth(o) => Some(o),
    }
}

/// An API key account's `config.toml`.
fn api_key_account_config_of(a: &CodexAccount, config: &Option<String>, managed_ids: &Vec<String>) -> (r: Result<
    String,
    String,
>)
    ensures
        match api_key_account_config(*a, opt_str(*config), strs(managed_ids@)) {
            Ok(t) => r matches Ok(x) && x@ == t,
            Err(e) => r matches Err(m) && m@ == e,
        },
{
    let key = match &a.openai_api_key {
        Some(k) => normalize_api_key(k.as_str()),
        None => None,
    };
    let key = match key {
        Some(k) => k,
        None => {
            return Err("API Key 账号缺少 OPENAI_API_KEY".to_string());
        },
    };
    let provider = infer_api_provider_config(
        match &a.api_base_url {
            Some(b) => Some(b.as_str()),
            None => None,
        },
        Some(a.api_provider_mode),
        match &a.api_provider_id {
            Some(v) => Some(v.as_str()),
            None => None,
        },
        match &a.api_provider_name {
            Some(v) => Some(v.as_str()),
            None => None,
        },
    );
    let existing: &str = match config {
        Some(c) => c.as_str(),
        None => "",
    };
    proof {
        reveal_strlit("");
    }
    write_api_key_provider_to_config_toml(existing, &provider, key.as_str(), managed_ids)
}

/// An account's own bundle.
fn own_bundle_of(
    a: &CodexAccount,
    config: Option<String>,
    managed_ids: &Vec<String>,
    now: i64,
    refreshed_at: &str,
    writes: &mut Vec<BundleWrite>,
) -> (r: (Option<String>, Option<String>))
    ensures
        ({
            let b = own_bundle(*a, opt_str(config), strs(managed_ids@), now, refreshed_at@);
            &&& writes_view(final(writes)@) == writes_view(old(writes)@) + b.0
            &&& opt_str(r.0) == b.1
            &&& opt_str(r.1) == b.2
        }),
{
    let ghost before = writes@;
    let auth = match auth_file_text_with_refresh(a, refreshed_at, true) {
        Ok(t) => t,
        Err(e) => {
            assert(writes_view(writes@) =~= writes_view(before) + Seq::<BundleWriteView>::empty());
            return (Some(e), config);
        },
    };
    writes.push(BundleWrite::AuthJson(auth));
    let ghost after_auth = writes@;
    assert(writes_view(after_auth) =~= writes_view(before) + seq![write_view(after_auth.last())]);
    let conf: Result<Option<String>, String> = if a.is_api_key_auth() {
        match api_key_account_config_of(a, &config, managed_ids) {
            Ok(x) => Ok(Some(x)),
            Err(e) => Err(e),
        }
    } else {
        let provider = ApiProviderConfig {
            mode: CodexApiProviderMode::OpenaiBuiltin,
            base_url: None,
            provider_id: None,
            provider_name: None,
        };
        let existing: Option<&str> = match &config {
            Some(c) => Some(c.as_str()),
            None => None,
        };
        write_api_provider_to_config_toml(existing, &provider, managed_ids)
    };
    let config_after = match conf {
        Err(e) => {
            return (Some(e), config);
        },
        Ok(None) => config,
        Ok(Some(x)) => {
            writes.push(BundleWrite::ConfigToml(copy_text(&x)));
            assert(writes_view(writes@) =~= writes_view(after_auth).push(write_view(writes@.last())));
            Some(x)
        },
    };
    let ghost before_projection = writes@;
    writes.push(BundleWrite::Projection(build_managed_projection(a, now)));
    assert(writes_view(writes@) =~= writes_view(before_projection).push(write_view(writes@.last())));
    (None, config_after)
}

/// A copy of a text.
fn copy_text(s: &String) -> (r: String)
    ensures
        r@ == s@,
{
    crate::text::copy_string(s)
}

/// An account's bundle, given the plan, the `config.toml` text of
/// the home (`None` when there is no file), the managed provider ids, the
/// time and the last-refresh stamp: the files to write, in order, and the
/// error that stops the writing.
pub fn compose_account_bundle_at(
    account: &CodexAccount,
    plan: AccountBundlePlan,
    config: Option<String>,
    managed_ids: &Vec<String>,
    now: i64,
    refreshed_at: &str,
) -> (r: AccountBundleWrites)
    ensures
        (writes_view(r.writes@), opt_str(r.stop)) == account_bundle(
            *account,
            plan_bound(plan),
            opt_str(config),
            strs(managed_ids@),
            now,
            refreshed_at@,
        ),
{
    let mut writes: Vec<BundleWrite> = Vec::new();
    assert(writes_view(writes@) =~= Seq::<BundleWriteView>::empty());
    match plan {
        AccountBundlePlan::Own => {
            let (stop, _) = own_bundle_of(account, config, managed_ids, now, refreshed_at, &mut writes);
            AccountBundleWrites { writes, stop }
        },
        AccountBundlePlan::WithBoundOAuth(oauth) => {
            let (stop, config_after) = own_bundle_of(&oauth, config, managed_ids, now, refreshed_at, &mut writes);
            if stop.is_some() {
                return AccountBundleWrites { writes, stop };
            }
            match api_key_account_config_of(account, &config_after, managed_ids) {
                Ok(x) => {
                    let ghost before = writes@;
                    writes.push(BundleWrite::ConfigToml(x));
                    assert(writes_view(writes@) =~= writes_view(before).push(write_view(writes@.last())));
                    AccountBundleWrites { writes, stop: None }
                },
                Err(e) => AccountBundleWrites { writes, stop: Some(e) },
            }
        },
    }
}

/// An account's bundle, stamping `auth.json`'s last refresh with
/// the current time: the bundle of `compose_account_bundle_at` for some
/// stamp.
pub fn compose_account_bundle(
    account: &CodexAccount,
    plan: AccountBundlePlan,
    config: Option<String>,
    managed_ids: &Vec<String>,
    now: i64,
) -> (r: AccountBundleWrites)
    ensures
        exists|stamp: Seq<char>|
            (writes_view(r.writes@), opt_str(r.stop)) == #[trigger] account_bundle(
                *account,
                plan_bound(plan),
                opt_str(config),
                strs(managed_ids@),
                now,
                stamp,
            ),
{
    let stamp = now_refresh_stamp();
    compose_account_bundle_at(account, plan, config, managed_ids, now, stamp.as_str())
}

} // verus!
