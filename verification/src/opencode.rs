//! The OpenCode `auth.json`: where it lies, and the entries the application
//! writes into it for Codex and GitHub Copilot accounts.
use vstd::prelude::*;
use crate::codex::{jwt_exp, opt_ref, CodexAccount};
use crate::platform_package::path_join;
use crate::strings::{opt_str, strs};
use crate::text::trim;
use crate::external::{json_from_text, json_object_values, json_pretty_with_member, json_set_member_pretty, json_values, parse_json_text};

verus! {

broadcast use vstd::string::group_string_axioms;

/// The places where OpenCode's `auth.json` may lie, first the preferred:
/// under `XDG_DATA_HOME` when set, under `~/.local/share`, and under the
/// platform's data directory; each once.
pub open spec fn auth_path_candidates(
    xdg_data_home: Option<Seq<char>>,
    home_dir: Option<Seq<char>>,
    data_dir: Option<Seq<char>>,
) -> Seq<Seq<char>> {
    let a: Seq<Seq<char>> = match xdg_data_home {
        Some(x) => if trim(x).len() == 0 {
            Seq::empty()
        } else {
            seq![path_join(path_join(trim(x), "opencode"@), "auth.json"@)]
        },
        None => Seq::empty(),
    };
    let b = match home_dir {
        Some(h) => push_unique(
            a,
            path_join(path_join(path_join(path_join(h, ".local"@), "share"@), "opencode"@), "auth.json"@),
        ),
        None => a,
    };
    match data_dir {
        Some(d) => push_unique(b, path_join(path_join(d, "opencode"@), "auth.json"@)),
        None => b,
    }
}

/// `push_unique_path`: appends a path that is not listed yet.
pub open spec fn push_unique(paths: Seq<Seq<char>>, path: Seq<char>) -> Seq<Seq<char>> {
    if paths.contains(path) {
        paths
    } else {
        paths.push(path)
    }
}

/// `push_unique_path`.
pub fn push_unique_path(paths: &mut Vec<String>, path: String)
    ensures
        strs(final(paths)@) == push_unique(strs(old(paths)@), path@),
{
    if crate::strings::list_contains(paths, path.as_str()) {
        return;
    }
    let ghost before = strs(paths@);
    paths.push(path);
    assert(strs(paths@) =~= before.push(path@));
}

/// `get_opencode_auth_json_path_candidates` with `XDG_DATA_HOME`, the home
/// directory and the data directory.
pub fn get_opencode_auth_json_path_candidates(
    xdg_data_home: Option<&str>,
    home_dir: Option<&str>,
    data_dir: Option<&str>,
) -> (r: Result<Vec<String>, String>)
    ensures
        auth_path_candidates(opt_ref(xdg_data_home), opt_ref(home_dir), opt_ref(data_dir)).len() == 0 ==> (r matches Err(
            m,
        ) && m@ == "无法推断 OpenCode auth.json 路径"@),
        auth_path_candidates(opt_ref(xdg_data_home), opt_ref(home_dir), opt_ref(data_dir)).len() > 0 ==> (r matches Ok(
            v,
        ) && strs(v@) == auth_path_candidates(opt_ref(xdg_data_home), opt_ref(home_dir), opt_ref(data_dir))),
{
    let mut candidates: Vec<String> = Vec::new();
    match xdg_data_home {
        Some(x) => {
            let t = crate::text::string_of(&crate::text::trimmed(x));
            if crate::text::trimmed(x).len() > 0 {
                let p = crate::platform_package::join_path(
                    crate::platform_package::join_path(t.as_str(), "opencode").as_str(),
                    "auth.json",
                );
                push_unique_path(&mut candidates, p);
            }
        },
        None => {},
    }
    proof {
        assert(strs(Seq::<String>::empty()) =~= Seq::<Seq<char>>::empty());
    }
    match home_dir {
        Some(h) => {
            let a = crate::platform_package::join_path(h, ".local");
            let b = crate::platform_package::join_path(a.as_str(), "share");
            let c = crate::platform_package::join_path(b.as_str(), "opencode");
            let p = crate::platform_package::join_path(c.as_str(), "auth.json");
            push_unique_path(&mut candidates, p);
        },
        None => {},
    }
    match data_dir {
        Some(d) => {
            let a = crate::platform_package::join_path(d, "opencode");
            let p = crate::platform_package::join_path(a.as_str(), "auth.json");
            push_unique_path(&mut candidates, p);
        },
        None => {},
    }
    if candidates.len() == 0 {
        return Err("无法推断 OpenCode auth.json 路径".to_string());
    }
    Ok(candidates)
}

/// `get_opencode_auth_json_path`: the preferred place of the file.
pub fn get_opencode_auth_json_path(
    xdg_data_home: Option<&str>,
    home_dir: Option<&str>,
    data_dir: Option<&str>,
) -> (r: Result<String, String>)
    ensures
        auth_path_candidates(opt_ref(xdg_data_home), opt_ref(home_dir), opt_ref(data_dir)).len() == 0 ==> (r matches Err(
            m,
        ) && m@ == "无法推断 OpenCode auth.json 路径"@),
        auth_path_candidates(opt_ref(xdg_data_home), opt_ref(home_dir), opt_ref(data_dir)).len() > 0 ==> (r matches Ok(
            p,
        ) && p@ == auth_path_candidates(opt_ref(xdg_data_home), opt_ref(home_dir), opt_ref(data_dir))[0]),
{
    let mut candidates = get_opencode_auth_json_path_candidates(xdg_data_home, home_dir, data_dir)?;
    proof {
        assert(strs(candidates@)[0] == candidates@[0]@);
    }
    Ok(candidates.swap_remove(0))
}

/// An OAuth entry of OpenCode's `auth.json`.
#[derive(Debug)]
pub struct OpenCodeOAuthEntry {
    pub access: String,
    pub refresh: String,
    pub expires: i64,
    pub account_id: Option<String>,
}

/// `decode_token_exp_ms`: the token's `exp` claim in milliseconds (none when
/// it is missing or the milliseconds do not fit in an `i64`).
pub open spec fn token_exp_ms(token: Seq<char>) -> Option<i64> {
    match jwt_exp(token) {
        Some(exp) => if i64::MIN <= exp * 1000 <= i64::MAX {
            Some((exp * 1000) as i64)
        } else {
            None
        },
        None => None,
    }
}

/// `decode_token_exp_ms`.
pub fn decode_token_exp_ms(access_token: &str) -> (r: Option<i64>)
    ensures
        r == token_exp_ms(access_token@),
{
    match crate::codex::decode_jwt_exp(access_token) {
        Some(exp) => exp.checked_mul(1000),
        None => None,
    }
}

/// `codex_access_token_expired` at time `now_ms`: a token without a
/// readable expiry counts as expired.
pub fn codex_access_token_expired(access_token: &str, now_ms: i64) -> (r: bool)
    ensures
        r == match token_exp_ms(access_token@) {
            Some(e) => e <= now_ms,
            None => true,
        },
{
    match decode_token_exp_ms(access_token) {
        Some(e) => e <= now_ms,
        None => true,
    }
}

/// `build_openai_payload`: the entry for a Codex account, which needs a
/// refresh token and an access token with an expiry.
pub fn build_openai_payload(account: &CodexAccount) -> (r: Result<OpenCodeOAuthEntry, String>)
    ensures
        match opt_str(account.tokens.refresh_token) {
            Some(t) if trim(t).len() > 0 => match token_exp_ms(account.tokens.access_token@) {
                Some(e) => r matches Ok(x) && x.access@ == account.tokens.access_token@ && x.refresh@ == t
                    && x.expires == e && opt_str(x.account_id) == opt_str(account.account_id),
                None => r matches Err(m) && m@ == "Codex access_token 缺少 exp，无法同步到 OpenCode"@,
            },
            _ => r matches Err(m) && m@ == "Codex refresh_token 缺失，无法同步到 OpenCode"@,
        },
{
    let refresh = match &account.tokens.refresh_token {
        Some(t) => {
            if crate::text::trimmed(t.as_str()).len() == 0 {
                return Err("Codex refresh_token 缺失，无法同步到 OpenCode".to_string());
            }
            t.clone()
        },
        None => {
            return Err("Codex refresh_token 缺失，无法同步到 OpenCode".to_string());
        },
    };
    let expires = match decode_token_exp_ms(account.tokens.access_token.as_str()) {
        Some(e) => e,
        None => {
            return Err("Codex access_token 缺少 exp，无法同步到 OpenCode".to_string());
        },
    };
    Ok(
        OpenCodeOAuthEntry {
            access: account.tokens.access_token.clone(),
            refresh,
            expires,
            account_id: crate::strings::clone_opt_string(&account.account_id),
        },
    )
}

/// `replace_openai_entry_from_codex` at time `now_ms`: the entry to store
/// under `openai`, refused for an expired access token.
pub fn replace_openai_entry_from_codex(account: &CodexAccount, now_ms: i64) -> (r: Result<OpenCodeOAuthEntry, String>)
    ensures
        match token_exp_ms(account.tokens.access_token@) {
            Some(e) if e > now_ms => match opt_str(account.tokens.refresh_token) {
                Some(t) if trim(t).len() > 0 => r matches Ok(x) && x.access@ == account.tokens.access_token@
                    && x.refresh@ == t && x.expires == e && opt_str(x.account_id) == opt_str(account.account_id),
                _ => r matches Err(m) && m@ == "Codex refresh_token 缺失，无法同步到 OpenCode"@,
            },
            _ => r matches Err(m) && m@ == "Codex access_token 已过期，无法同步到 OpenCode"@,
        },
{
    if codex_access_token_expired(account.tokens.access_token.as_str(), now_ms) {
        return Err("Codex access_token 已过期，无法同步到 OpenCode".to_string());
    }
    build_openai_payload(account)
}

/// The GitHub Copilot entry of OpenCode's `auth.json` for an account:
/// the entry to store under `github-copilot`, whose access and refresh are
/// the trimmed GitHub token and which never expires.
pub fn replace_github_copilot_entry_from_account(github_access_token: &str) -> (r: Result<OpenCodeOAuthEntry, String>)
    ensures
        trim(github_access_token@).len() == 0 ==> (r matches Err(m) && m@
            == "GitHub Copilot access_token 缺失，无法同步到 OpenCode"@),
        trim(github_access_token@).len() > 0 ==> (r matches Ok(x) && x.access@ == trim(github_access_token@)
            && x.refresh@ == trim(github_access_token@) && x.expires == 0 && x.account_id is None),
{
    let t = crate::text::trimmed(github_access_token);
    if t.len() == 0 {
        return Err("GitHub Copilot access_token 缺失，无法同步到 OpenCode".to_string());
    }
    let token = crate::text::string_of(&t);
    Ok(OpenCodeOAuthEntry { access: token.clone(), refresh: token, expires: 0, account_id: None })
}

/// `replace_provider_entry`'s new `auth.json`: the content of the file it
/// starts from (none when there is none), with the provider's entry
/// (`payload`, as JSON) set; a file that is no object is started afresh.
pub open spec fn auth_json_with_entry(
    source: Option<(Seq<char>, Seq<char>)>,
    provider_key: Seq<char>,
    payload: Seq<char>,
) -> Result<Seq<char>, Seq<char>> {
    let base = match source {
        None => Ok("{}"@),
        Some((path, content)) => match json_from_text(content) {
            Err(e) => Err("解析 OpenCode auth.json 失败 ("@ + path + "): "@ + e),
            Ok(v) => if json_values(v) is Some {
                Ok(v)
            } else {
                Ok("{}"@)
            },
        },
    };
    match base {
        Err(e) => Err(e),
        Ok(doc) => match json_pretty_with_member(doc, provider_key, payload) {
            Ok(t) => Ok(t),
            Err(e) => Err("序列化 OpenCode auth.json 失败: "@ + e),
        },
    }
}

/// `replace_provider_entry`, given the path and content of the first
/// `auth.json` that exists (none when none does): the content to write.
pub fn replace_provider_entry(
    source: Option<(&str, &str)>,
    provider_key: &str,
    payload: &str,
) -> (r: Result<String, String>)
    ensures
        match auth_json_with_entry(
            match source {
                Some(s) => Some((s.0@, s.1@)),
                None => None,
            },
            provider_key@,
            payload@,
        ) {
            Ok(t) => r matches Ok(x) && x@ == t,
            Err(e) => r matches Err(m) && m@ == e,
        },
{
    proof {
        reveal_strlit("{}");
    }
    let doc = match source {
        None => "{}".to_string(),
        Some((path, content)) => match parse_json_text(content) {
            Err(e) => {
                let a = crate::text::concat("解析 OpenCode auth.json 失败 (", path);
                let b = crate::text::concat(a.as_str(), "): ");
                return Err(crate::text::concat(b.as_str(), e.as_str()));
            },
            Ok(v) => if json_object_values(v.as_str()).is_some() {
                v
            } else {
                "{}".to_string()
            },
        },
    };
    match json_set_member_pretty(doc.as_str(), provider_key, payload) {
        Ok(t) => Ok(t),
        Err(e) => Err(crate::text::concat("序列化 OpenCode auth.json 失败: ", e.as_str())),
    }
}

/// The other `auth.json` places that `replace_provider_entry` keeps in
/// step: those that are not the target and exist.
pub open spec fn sync_targets(candidates: Seq<(Seq<char>, bool)>, target: Seq<char>) -> Seq<Seq<char>>
    decreases candidates.len(),
{
    if candidates.len() == 0 {
        Seq::empty()
    } else {
        let rest = sync_targets(candidates.drop_last(), target);
        let (p, exists) = candidates.last();
        if p != target && exists {
            rest.push(p)
        } else {
            rest
        }
    }
}

/// The places, among the candidates (with whether each exists), that are
/// written too.
pub fn opencode_sync_targets(candidates: &Vec<(String, bool)>, target: &str) -> (r: Vec<String>)
    ensures
        strs(r@) == sync_targets(candidates@.map_values(|c: (String, bool)| (c.0@, c.1)), target@),
{
    let ghost cs = candidates@.map_values(|c: (String, bool)| (c.0@, c.1));
    let mut r: Vec<String> = Vec::new();
    let mut i: usize = 0;
    while i < candidates.len()
        invariant
            i <= candidates@.len(),
            cs == candidates@.map_values(|c: (String, bool)| (c.0@, c.1)),
            strs(r@) == sync_targets(cs.take(i as int), target@),
        decreases candidates.len() - i,
    {
        assert(cs.take(i + 1).drop_last() =~= cs.take(i as int));
        assert(cs.take(i + 1).last() == (candidates@[i as int].0@, candidates@[i as int].1));
        let (p, exists) = &candidates[i];
        if !crate::text::str_eq(p.as_str(), target) && *exists {
            r.push(p.clone());
            assert(strs(r@) =~= strs(r@.drop_last()).push(r@.last()@));
        }
        i += 1;
    }
    assert(cs.take(candidates@.len() as int) =~= cs);
    r
}

} // verus!
