//! Reading Codex logins out of imported JSON: token sets, ChatGPT session
//! objects, access or refresh tokens alone, Sub2API exports and JSON lines.
use vstd::prelude::*;
use crate::external::{
    json_array_len, json_array_length, json_as_string, json_from_text, json_get_item, json_get_member, json_item,
    json_member, json_object_values, json_quote, json_string, json_string_value, json_values, parse_json_text,
};
use crate::codex::{
    access_token_upsert, hinted_upsert, jwt_payload, jwt_payload_text, non_blank, normalize_optional_ref, normalized_opt,
    upsert_account_from_access_token, upsert_account_with_hints, CodexAccount, CodexAccountIndex, CodexAuthMode,
    CodexAuthTokens, CodexTokens,
};
use crate::codex_profile::{extract_account_record_field, record_field};
use crate::strings::{opt_str, strs};
use crate::text::{concat, contains, eq_ignore_case, lower, lower_char, nat_digits, split_char, starts_with, trim, trim_start};

verus! {

broadcast use vstd::string::group_string_axioms;

// ---------------------------------------------------------------------------
// Strings at paths
// ---------------------------------------------------------------------------

/// The JSON value reached from a JSON text by following object keys.
pub open spec fn json_at_path(value: Seq<char>, path: Seq<Seq<char>>) -> Option<Seq<char>>
    decreases path.len(),
{
    if path.len() == 0 {
        Some(value)
    } else {
        match json_member(value, path[0]) {
            Some(v) => json_at_path(v, path.drop_first()),
            None => None,
        }
    }
}

/// Paths of keys as texts.
pub open spec fn path_views(paths: Seq<&[&str]>) -> Seq<Seq<Seq<char>>> {
    paths.map_values(|p: &[&str]| p@.map_values(|k: &str| k@))
}

/// The first of `paths`, from position `i`, that leads to a non-blank
/// string; that string, trimmed.
pub open spec fn first_string_at(value: Seq<char>, paths: Seq<Seq<Seq<char>>>, i: int) -> Option<Seq<char>>
    decreases paths.len() - i,
{
    if i < 0 || i >= paths.len() {
        None
    } else {
        match json_at_path(value, paths[i]) {
            Some(v) => match normalized_opt(json_string(v)) {
                Some(s) => Some(s),
                None => first_string_at(value, paths, i + 1),
            },
            None => first_string_at(value, paths, i + 1),
        }
    }
}

/// The JSON value at a path of keys.
fn value_at_path(value: &str, path: &[&str]) -> (r: Option<String>)
    ensures
        opt_str(r) == json_at_path(value@, path@.map_values(|k: &str| k@)),
{
    let ghost keys = path@.map_values(|k: &str| k@);
    let mut current = value.to_string();
    let mut i: usize = 0;
    assert(keys.skip(0) =~= keys);
    while i < path.len()
        invariant
            i <= path@.len(),
            keys == path@.map_values(|k: &str| k@),
            json_at_path(value@, keys) == json_at_path(current@, keys.skip(i as int)),
        decreases path.len() - i,
    {
        assert(keys.skip(i as int).drop_first() =~= keys.skip(i + 1));
        assert(keys.skip(i as int)[0] == path@[i as int]@);
        match json_get_member(current.as_str(), path[i]) {
            Some(v) => {
                current = v;
            },
            None => {
                return None;
            },
        }
        i += 1;
    }
    assert(keys.skip(path@.len() as int).len() == 0);
    Some(current)
}

/// `first_json_string`: the first of `paths` that leads to a non-blank
/// string, trimmed.
pub fn first_json_string(value: &str, paths: &[&[&str]]) -> (r: Option<String>)
    ensures
        opt_str(r) == first_string_at(value@, path_views(paths@), 0),
{
    let ghost ps = path_views(paths@);
    let mut i: usize = 0;
    while i < paths.len()
        invariant
            i <= paths@.len(),
            ps == path_views(paths@),
            first_string_at(value@, ps, 0) == first_string_at(value@, ps, i as int),
        decreases paths.len() - i,
    {
        assert(ps[i as int] == paths@[i as int]@.map_values(|k: &str| k@));
        match value_at_path(value, paths[i]) {
            Some(v) => {
                let s = json_as_string(v.as_str());
                let n = match &s {
                    Some(x) => normalize_optional_ref(Some(x.as_str())),
                    None => None,
                };
                match n {
                    Some(x) => {
                        return Some(x);
                    },
                    None => {},
                }
            },
            None => {},
        }
        i += 1;
    }
    None
}

// ---------------------------------------------------------------------------
// Tokens in a JSON value
// ---------------------------------------------------------------------------

/// Paths of one key each.
pub open spec fn keys_as_paths(keys: Seq<Seq<char>>) -> Seq<Seq<Seq<char>>> {
    keys.map_values(|k: Seq<char>| seq![k])
}

/// Paths under `tokens`.
pub open spec fn under_tokens(keys: Seq<Seq<char>>) -> Seq<Seq<Seq<char>>> {
    keys.map_values(|k: Seq<char>| seq!["tokens"@, k])
}

/// Where a flat token set keeps each token.
pub open spec fn flat_id_paths() -> Seq<Seq<Seq<char>>> {
    keys_as_paths(seq!["id_token"@, "idToken"@])
}

pub open spec fn flat_access_paths() -> Seq<Seq<Seq<char>>> {
    keys_as_paths(seq!["access_token"@, "accessToken"@])
}

pub open spec fn flat_refresh_paths() -> Seq<Seq<Seq<char>>> {
    keys_as_paths(seq!["refresh_token"@, "refreshToken"@, "session_token"@, "sessionToken"@])
}

pub open spec fn flat_hint_paths() -> Seq<Seq<Seq<char>>> {
    keys_as_paths(seq!["account_id"@, "accountId"@])
}

/// Where a nested token set keeps each token.
pub open spec fn nested_id_paths() -> Seq<Seq<Seq<char>>> {
    under_tokens(seq!["id_token"@, "idToken"@])
}

pub open spec fn nested_access_paths() -> Seq<Seq<Seq<char>>> {
    under_tokens(seq!["access_token"@, "accessToken"@])
}

pub open spec fn nested_refresh_paths() -> Seq<Seq<Seq<char>>> {
    under_tokens(seq!["refresh_token"@, "refreshToken"@, "session_token"@, "sessionToken"@]) + flat_refresh_paths().skip(
        2,
    )
}

pub open spec fn nested_hint_paths() -> Seq<Seq<Seq<char>>> {
    under_tokens(seq!["account_id"@, "accountId"@]) + flat_hint_paths()
}

/// Whether a JSON text holds an object.
pub open spec fn is_object(value: Seq<char>) -> bool {
    json_values(value) is Some
}

/// Whether the member `key` of a JSON object text is an object.
pub open spec fn member_is_object(value: Seq<char>, key: Seq<char>) -> bool {
    match json_member(value, key) {
        Some(m) => is_object(m),
        None => false,
    }
}

/// The id token, access token, refresh token and account id hint that a
/// JSON object holds, flat or under `tokens`.
pub open spec fn codex_tokens_in(value: Seq<char>) -> Option<
    (Seq<char>, Seq<char>, Option<Seq<char>>, Option<Seq<char>>),
> {
    if !is_object(value) {
        None
    } else {
        let id = first_string_at(value, flat_id_paths(), 0);
        let access = first_string_at(value, flat_access_paths(), 0);
        if id is Some && access is Some {
            Some(
                (
                    id->0,
                    access->0,
                    first_string_at(value, flat_refresh_paths(), 0),
                    first_string_at(value, flat_hint_paths(), 0),
                ),
            )
        } else if member_is_object(value, "tokens"@) {
            let id2 = first_string_at(value, nested_id_paths(), 0);
            let access2 = first_string_at(value, nested_access_paths(), 0);
            if id2 is Some && access2 is Some {
                Some(
                    (
                        id2->0,
                        access2->0,
                        first_string_at(value, nested_refresh_paths(), 0),
                        first_string_at(value, nested_hint_paths(), 0),
                    ),
                )
            } else {
                None
            }
        } else {
            None
        }
    }
}

/// Whether a JSON text holds an object, asked of `serde_json`.
fn is_json_object(value: &str) -> (r: bool)
    ensures
        r == is_object(value@),
{
    json_object_values(value).is_some()
}

/// Whether the member `key` of a JSON object text is an object.
fn member_object(value: &str, key: &str) -> (r: bool)
    ensures
        r == member_is_object(value@, key@),
{
    match json_get_member(value, key) {
        Some(m) => is_json_object(m.as_str()),
        None => false,
    }
}

/// `extract_codex_tokens_from_value`: the tokens and account id hint that a
/// JSON object holds, flat or under `tokens`.
pub fn extract_codex_tokens_from_value(value: &str) -> (r: Option<(CodexTokens, Option<String>)>)
    ensures
        match codex_tokens_in(value@) {
            Some(t) => r matches Some(x) && x.0.id_token@ == t.0 && x.0.access_token@ == t.1 && opt_str(
                x.0.refresh_token,
            ) == t.2 && opt_str(x.1) == t.3,
            None => r is None,
        },
{
    if !is_json_object(value) {
        return None;
    }
    let flat_id: [&[&str]; 2] = [&["id_token"], &["idToken"]];
    let flat_access: [&[&str]; 2] = [&["access_token"], &["accessToken"]];
    let flat_refresh: [&[&str]; 4] = [&["refresh_token"], &["refreshToken"], &["session_token"], &["sessionToken"]];
    let flat_hint: [&[&str]; 2] = [&["account_id"], &["accountId"]];
    assert(path_views(flat_id@) =~~= flat_id_paths());
    assert(path_views(flat_access@) =~~= flat_access_paths());
    assert(path_views(flat_refresh@) =~~= flat_refresh_paths());
    assert(path_views(flat_hint@) =~~= flat_hint_paths());
    let id = first_json_string(value, &flat_id);
    let access = first_json_string(value, &flat_access);
    if id.is_some() && access.is_some() {
        let id = id.unwrap();
        let access = access.unwrap();
        let refresh = first_json_string(value, &flat_refresh);
        let hint = first_json_string(value, &flat_hint);
        return Some((CodexTokens { id_token: id, access_token: access, refresh_token: refresh }, hint));
    }
    if !member_object(value, "tokens") {
        return None;
    }
    let nested_id: [&[&str]; 2] = [&["tokens", "id_token"], &["tokens", "idToken"]];
    let nested_access: [&[&str]; 2] = [&["tokens", "access_token"], &["tokens", "accessToken"]];
    let nested_refresh: [&[&str]; 6] = [
        &["tokens", "refresh_token"],
        &["tokens", "refreshToken"],
        &["tokens", "session_token"],
        &["tokens", "sessionToken"],
        &["session_token"],
        &["sessionToken"],
    ];
    let nested_hint: [&[&str]; 4] = [&["tokens", "account_id"], &["tokens", "accountId"], &["account_id"], &["accountId"]];
    assert(path_views(nested_id@) =~~= nested_id_paths());
    assert(path_views(nested_access@) =~~= nested_access_paths());
    assert(path_views(nested_refresh@) =~~= nested_refresh_paths());
    assert(path_views(nested_hint@) =~~= nested_hint_paths());
    let id2 = first_json_string(value, &nested_id);
    let access2 = first_json_string(value, &nested_access);
    if id2.is_some() && access2.is_some() {
        let id2 = id2.unwrap();
        let access2 = access2.unwrap();
        let refresh = first_json_string(value, &nested_refresh);
        let hint = first_json_string(value, &nested_hint);
        return Some((CodexTokens { id_token: id2, access_token: access2, refresh_token: refresh }, hint));
    }
    None
}

// ---------------------------------------------------------------------------
// Tokens that decode
// ---------------------------------------------------------------------------

/// What `decode_jwt_payload_value` gives: the JSON of a three-part token's
/// payload, when it decodes and parses.
pub open spec fn jwt_json(token: Seq<char>) -> Option<Seq<char>> {
    match jwt_payload(token) {
        Some(p) => match json_from_text(p) {
            Ok(t) => Some(t),
            Err(_) => None,
        },
        None => None,
    }
}

/// `decode_jwt_payload_value`: the JSON payload of a three-part token.
pub fn decode_jwt_payload_value(token: &str) -> (r: Option<String>)
    ensures
        opt_str(r) == jwt_json(token@),
{
    let payload = match jwt_payload_text(token) {
        Some(p) => p,
        None => {
            return None;
        },
    };
    match parse_json_text(payload.as_str()) {
        Ok(t) => Some(t),
        Err(_) => None,
    }
}

/// Whether a token decodes to a JSON payload.
fn decodes(token: &str) -> (r: bool)
    ensures
        r == (jwt_json(token@) is Some),
{
    decode_jwt_payload_value(token).is_some()
}

// ---------------------------------------------------------------------------
// ChatGPT session objects
// ---------------------------------------------------------------------------

/// Where a session keeps its access token.
pub open spec fn session_access_paths() -> Seq<Seq<Seq<char>>> {
    keys_as_paths(seq!["accessToken"@, "access_token"@])
}

/// Where a session keeps its id token.
pub open spec fn session_id_paths() -> Seq<Seq<Seq<char>>> {
    keys_as_paths(seq!["idToken"@, "id_token"@])
}

/// Where a session keeps its refresh token.
pub open spec fn session_refresh_paths() -> Seq<Seq<Seq<char>>> {
    keys_as_paths(seq!["refreshToken"@, "refresh_token"@, "sessionToken"@, "session_token"@])
}

/// Where a session keeps its account id.
pub open spec fn session_hint_paths() -> Seq<Seq<Seq<char>>> {
    seq![seq!["account"@, "id"@], seq!["account_id"@]]
}

/// A session's access token, when it decodes.
pub open spec fn session_access_token(value: Seq<char>) -> Option<Seq<char>> {
    match first_string_at(value, session_access_paths(), 0) {
        Some(t) => if jwt_json(t) is Some {
            Some(t)
        } else {
            None
        },
        None => None,
    }
}

/// `is_codex_session_object`: an object with a decodable access token and a
/// user or account object, an expiry, a session token, or OpenAI as its
/// provider.
pub open spec fn is_session_object(value: Seq<char>) -> bool {
    &&& is_object(value)
    &&& session_access_token(value) is Some
    &&& {
        ||| member_is_object(value, "user"@)
        ||| member_is_object(value, "account"@)
        ||| json_member(value, "expires"@) is Some
        ||| json_member(value, "sessionToken"@) is Some
        ||| match json_member(value, "authProvider"@) {
            Some(p) => match json_string(p) {
                Some(s) => eq_ignore_case(s, "openai"@),
                None => false,
            },
            None => false,
        }
    }
}

/// `is_codex_session_object`.
pub fn is_codex_session_object(value: &str) -> (r: bool)
    ensures
        r == is_session_object(value@),
{
    if !is_json_object(value) {
        return false;
    }
    let paths: [&[&str]; 2] = [&["accessToken"], &["access_token"]];
    assert(path_views(paths@) =~~= session_access_paths());
    let has_access = match first_json_string(value, &paths) {
        Some(t) => decodes(t.as_str()),
        None => false,
    };
    if !has_access {
        return false;
    }
    let provider_is_openai = match json_get_member(value, "authProvider") {
        Some(p) => match json_as_string(p.as_str()) {
            Some(s) => crate::text::eq_ignore_case_exec(s.as_str(), "openai"),
            None => false,
        },
        None => false,
    };
    member_object(value, "user") || member_object(value, "account") || json_get_member(value, "expires").is_some()
        || json_get_member(value, "sessionToken").is_some() || provider_is_openai
}

/// What the nested member `key` gives when looking for a session: nothing
/// found (`Some(None)`), a session (`Some(Some(s))`), or a stop (`None`)
/// when it is a string that is no JSON.
pub open spec fn nested_session(value: Seq<char>, key: Seq<char>, depth: int) -> Option<Option<Seq<char>>>
    decreases 5 - depth, 0int,
{
    if depth < 0 || depth > 4 {
        Some(None)
    } else {
        match json_member(value, key) {
            None => Some(None),
            Some(n) => if is_object(n) {
                Some(session_in(n, depth + 1))
            } else {
                match json_string(n) {
                    Some(raw) => match json_from_text(raw) {
                        Ok(p) => Some(session_in(p, depth + 1)),
                        Err(_) => None,
                    },
                    None => Some(None),
                }
            },
        }
    }
}

/// `normalize_codex_session_value`: the session object a JSON value holds,
/// itself or under `session_json` or `session` (an object, or a string of
/// JSON), at most four levels down.
pub open spec fn session_in(value: Seq<char>, depth: int) -> Option<Seq<char>>
    decreases 5 - depth, 1int,
{
    if depth < 0 || depth > 4 || !is_object(value) {
        None
    } else {
        match nested_session(value, "session_json"@, depth) {
            None => None,
            Some(Some(s)) => Some(s),
            Some(None) => match nested_session(value, "session"@, depth) {
                None => None,
                Some(Some(s)) => Some(s),
                Some(None) => if is_session_object(value) {
                    Some(value)
                } else {
                    None
                },
            },
        }
    }
}

/// The nested member `key`, looked into for a session.
fn nested_session_value(value: &str, key: &str, depth: usize) -> (r: Option<Option<String>>)
    requires
        depth <= 4,
    ensures
        match nested_session(value@, key@, depth as int) {
            None => r is None,
            Some(None) => r == Some(None::<String>),
            Some(Some(s)) => r matches Some(Some(x)) && x@ == s,
        },
    decreases 5 - depth, 0int,
{
    let n = match json_get_member(value, key) {
        Some(n) => n,
        None => {
            return Some(None);
        },
    };
    if is_json_object(n.as_str()) {
        return Some(normalize_codex_session_value(n.as_str(), depth + 1));
    }
    match json_as_string(n.as_str()) {
        Some(raw) => match parse_json_text(raw.as_str()) {
            Ok(p) => Some(normalize_codex_session_value(p.as_str(), depth + 1)),
            Err(_) => None,
        },
        None => Some(None),
    }
}

/// `normalize_codex_session_value`.
pub fn normalize_codex_session_value(value: &str, depth: usize) -> (r: Option<String>)
    ensures
        opt_str(r) == session_in(value@, depth as int),
    decreases 5 - depth, 1int,
{
    if depth > 4 || !is_json_object(value) {
        return None;
    }
    match nested_session_value(value, "session_json", depth) {
        None => None,
        Some(Some(s)) => Some(s),
        Some(None) => match nested_session_value(value, "session", depth) {
            None => None,
            Some(Some(s)) => Some(s),
            Some(None) => if is_codex_session_object(value) {
                Some(value.to_string())
            } else {
                None
            },
        },
    }
}

// ---------------------------------------------------------------------------
// Import candidates
// ---------------------------------------------------------------------------

/// The keys under which an import carries a note.
pub open spec fn note_keys() -> Seq<Seq<char>> {
    seq!["account_note"@, "accountInfo"@, "account_info"@, "note"@, "notes"@, "remark"@]
}

/// `extract_account_note_from_value`: the first non-blank note of an object.
pub open spec fn account_note_in(value: Seq<char>) -> Option<Seq<char>> {
    if is_object(value) {
        record_field(value, note_keys(), 0)
    } else {
        None
    }
}

/// `extract_account_note_from_value`.
pub fn extract_account_note_from_value(value: &str) -> (r: Option<String>)
    ensures
        opt_str(r) == account_note_in(value@),
{
    if !is_json_object(value) {
        return None;
    }
    let keys: [&str; 6] = ["account_note", "accountInfo", "account_info", "note", "notes", "remark"];
    assert(keys@.map_values(|k: &str| k@) =~= note_keys());
    extract_account_record_field(value, &keys)
}

/// A login found in an imported JSON value, as texts.
pub enum CandidateView {
    Full {
        id_token: Seq<char>,
        access_token: Seq<char>,
        refresh_token: Option<Seq<char>>,
        account_id_hint: Option<Seq<char>>,
        account_note: Option<Seq<char>>,
    },
    Access { access_token: Seq<char>, account_note: Option<Seq<char>> },
    Refresh { refresh_token: Seq<char>, account_note: Option<Seq<char>> },
}

/// A login found in an imported JSON value.
#[derive(Debug)]
pub enum CodexJsonImportCandidate {
    /// A full token set, with an account id hint and a note.
    FullToken { tokens: CodexTokens, account_id_hint: Option<String>, account_note: Option<String> },
    /// An access token alone, with a note.
    AccessToken { access_token: String, account_note: Option<String> },
    /// A refresh token alone, with a note.
    RefreshToken { refresh_token: String, account_note: Option<String> },
}

/// A candidate as texts.
pub open spec fn candidate_view(c: CodexJsonImportCandidate) -> CandidateView {
    match c {
        CodexJsonImportCandidate::FullToken { tokens, account_id_hint, account_note } => CandidateView::Full {
            id_token: tokens.id_token@,
            access_token: tokens.access_token@,
            refresh_token: opt_str(tokens.refresh_token),
            account_id_hint: opt_str(account_id_hint),
            account_note: opt_str(account_note),
        },
        CodexJsonImportCandidate::AccessToken { access_token, account_note } => CandidateView::Access {
            access_token: access_token@,
            account_note: opt_str(account_note),
        },
        CodexJsonImportCandidate::RefreshToken { refresh_token, account_note } => CandidateView::Refresh {
            refresh_token: refresh_token@,
            account_note: opt_str(account_note),
        },
    }
}

/// `extract_codex_session_candidate_from_value`: the full token set of a
/// session (its access token standing in for a missing id token).
pub open spec fn session_candidate(value: Seq<char>) -> Option<CandidateView> {
    match session_in(value, 0) {
        None => None,
        Some(s) => match session_access_token(s) {
            None => None,
            Some(at) => Some(
                CandidateView::Full {
                    id_token: match first_string_at(s, session_id_paths(), 0) {
                        Some(i) => i,
                        None => at,
                    },
                    access_token: at,
                    refresh_token: first_string_at(s, session_refresh_paths(), 0),
                    account_id_hint: first_string_at(s, session_hint_paths(), 0),
                    account_note: match account_note_in(value) {
                        Some(n) => Some(n),
                        None => account_note_in(s),
                    },
                },
            ),
        },
    }
}

/// `extract_codex_session_candidate_from_value`.
pub fn extract_codex_session_candidate_from_value(value: &str) -> (r: Option<CodexJsonImportCandidate>)
    ensures
        match session_candidate(value@) {
            Some(c) => r matches Some(x) && candidate_view(x) == c,
            None => r is None,
        },
{
    let session = match normalize_codex_session_value(value, 0) {
        Some(s) => s,
        None => {
            return None;
        },
    };
    let access_paths: [&[&str]; 2] = [&["accessToken"], &["access_token"]];
    let id_paths: [&[&str]; 2] = [&["idToken"], &["id_token"]];
    let refresh_paths: [&[&str]; 4] = [&["refreshToken"], &["refresh_token"], &["sessionToken"], &["session_token"]];
    let hint_paths: [&[&str]; 2] = [&["account", "id"], &["account_id"]];
    assert(path_views(access_paths@) =~~= session_access_paths());
    assert(path_views(id_paths@) =~~= session_id_paths());
    assert(path_views(refresh_paths@) =~~= session_refresh_paths());
    assert(path_views(hint_paths@) =~~= session_hint_paths());
    let access_token = match first_json_string(session.as_str(), &access_paths) {
        Some(t) => t,
        None => {
            return None;
        },
    };
    if !decodes(access_token.as_str()) {
        return None;
    }
    let id_token = match first_json_string(session.as_str(), &id_paths) {
        Some(i) => i,
        None => access_token.clone(),
    };
    let refresh_token = first_json_string(session.as_str(), &refresh_paths);
    let account_id_hint = first_json_string(session.as_str(), &hint_paths);
    let account_note = match extract_account_note_from_value(value) {
        Some(n) => Some(n),
        None => extract_account_note_from_value(session.as_str()),
    };
    Some(
        CodexJsonImportCandidate::FullToken {
            tokens: CodexTokens { id_token, access_token, refresh_token },
            account_id_hint,
            account_note,
        },
    )
}

/// Where an object keeps a refresh token given alone.
pub open spec fn refresh_only_paths() -> Seq<Seq<Seq<char>>> {
    keys_as_paths(seq!["refresh_token"@, "refreshToken"@]) + under_tokens(seq!["refresh_token"@, "refreshToken"@])
}

/// Where an object keeps an access token given alone.
pub open spec fn access_only_paths() -> Seq<Seq<Seq<char>>> {
    under_tokens(seq!["access_token"@, "accessToken"@]) + seq![
        seq!["credentials"@, "access_token"@],
        seq!["credentials"@, "accessToken"@],
    ] + keys_as_paths(seq!["access_token"@, "accessToken"@, "token"@])
}

/// `extract_refresh_token_only_from_value`: a string that does not decode
/// as a token, or an object's refresh token.
pub open spec fn refresh_token_only(value: Seq<char>) -> Option<Seq<char>> {
    match json_string(value) {
        Some(raw) => match non_blank(raw) {
            Some(t) => if jwt_json(t) is Some {
                None
            } else {
                Some(t)
            },
            None => None,
        },
        None => if is_object(value) {
            first_string_at(value, refresh_only_paths(), 0)
        } else {
            None
        },
    }
}

/// `extract_refresh_token_only_from_value`.
pub fn extract_refresh_token_only_from_value(value: &str) -> (r: Option<String>)
    ensures
        opt_str(r) == refresh_token_only(value@),
{
    match json_as_string(value) {
        Some(raw) => match normalize_optional_ref(Some(raw.as_str())) {
            Some(t) => if decodes(t.as_str()) {
                None
            } else {
                Some(t)
            },
            None => None,
        },
        None => {
            if !is_json_object(value) {
                return None;
            }
            let paths: [&[&str]; 4] = [&["refresh_token"], &["refreshToken"], &["tokens", "refresh_token"], &["tokens", "refreshToken"]];
            assert(path_views(paths@) =~~= refresh_only_paths());
            first_json_string(value, &paths)
        },
    }
}

/// `extract_access_token_only_from_value`: a string, or an object's access
/// token, that decodes as a token.
pub open spec fn access_token_only(value: Seq<char>) -> Option<Seq<char>> {
    let found = match json_string(value) {
        Some(raw) => non_blank(raw),
        None => if is_object(value) {
            first_string_at(value, access_only_paths(), 0)
        } else {
            None
        },
    };
    match found {
        Some(t) => if jwt_json(t) is Some {
            Some(t)
        } else {
            None
        },
        None => None,
    }
}

/// `extract_access_token_only_from_value`.
pub fn extract_access_token_only_from_value(value: &str) -> (r: Option<String>)
    ensures
        opt_str(r) == access_token_only(value@),
{
    let found = match json_as_string(value) {
        Some(raw) => normalize_optional_ref(Some(raw.as_str())),
        None => {
            if !is_json_object(value) {
                return None;
            }
            let paths: [&[&str]; 7] = [
                &["tokens", "access_token"],
                &["tokens", "accessToken"],
                &["credentials", "access_token"],
                &["credentials", "accessToken"],
                &["access_token"],
                &["accessToken"],
                &["token"],
            ];
            assert(path_views(paths@) =~~= access_only_paths());
            first_json_string(value, &paths)
        },
    };
    match found {
        Some(t) => if decodes(t.as_str()) {
            Some(t)
        } else {
            None
        },
        None => None,
    }
}

/// `extract_codex_import_candidate_from_value`: a session, else a token
/// set, else a refresh token alone, else an access token alone.
pub open spec fn import_candidate(value: Seq<char>) -> Option<CandidateView> {
    match session_candidate(value) {
        Some(c) => Some(c),
        None => match codex_tokens_in(value) {
            Some(t) => Some(
                CandidateView::Full {
                    id_token: t.0,
                    access_token: t.1,
                    refresh_token: t.2,
                    account_id_hint: t.3,
                    account_note: account_note_in(value),
                },
            ),
            None => match refresh_token_only(value) {
                Some(rt) => Some(CandidateView::Refresh { refresh_token: rt, account_note: account_note_in(value) }),
                None => match access_token_only(value) {
                    Some(at) => Some(CandidateView::Access { access_token: at, account_note: account_note_in(value) }),
                    None => None,
                },
            },
        },
    }
}

/// `extract_codex_import_candidate_from_value`.
pub fn extract_codex_import_candidate_from_value(value: &str) -> (r: Option<CodexJsonImportCandidate>)
    ensures
        match import_candidate(value@) {
            Some(c) => r matches Some(x) && candidate_view(x) == c,
            None => r is None,
        },
{
    match extract_codex_session_candidate_from_value(value) {
        Some(c) => {
            return Some(c);
        },
        None => {},
    }
    match extract_codex_tokens_from_value(value) {
        Some((tokens, account_id_hint)) => {
            return Some(
                CodexJsonImportCandidate::FullToken {
                    tokens,
                    account_id_hint,
                    account_note: extract_account_note_from_value(value),
                },
            );
        },
        None => {},
    }
    match extract_refresh_token_only_from_value(value) {
        Some(refresh_token) => {
            return Some(
                CodexJsonImportCandidate::RefreshToken {
                    refresh_token,
                    account_note: extract_account_note_from_value(value),
                },
            );
        },
        None => {},
    }
    match extract_access_token_only_from_value(value) {
        Some(access_token) => Some(
            CodexJsonImportCandidate::AccessToken { access_token, account_note: extract_account_note_from_value(value) },
        ),
        None => None,
    }
}

// ---------------------------------------------------------------------------
// Sub2API exports
// ---------------------------------------------------------------------------

/// Whether item `i` of an accounts array has credentials and a platform.
pub open spec fn sub2api_item_marked(accounts: Seq<char>, i: int) -> bool {
    match json_item(accounts, i as usize) {
        Some(it) => json_member(it, "credentials"@) is Some && json_member(it, "platform"@) is Some,
        None => false,
    }
}

/// `looks_like_sub2api_export`: an `accounts` array, with an export time,
/// proxies, or an item that has credentials and a platform.
pub open spec fn looks_like_sub2api(value: Seq<char>) -> bool {
    match json_member(value, "accounts"@) {
        None => false,
        Some(a) => match json_array_len(a) {
            None => false,
            Some(n) => json_member(value, "exported_at"@) is Some || json_member(value, "proxies"@) is Some || exists|
                i: int,
            |
                0 <= i < n && #[trigger] sub2api_item_marked(a, i),
        },
    }
}

/// `looks_like_sub2api_export`.
pub fn looks_like_sub2api_export(value: &str) -> (r: bool)
    ensures
        r == looks_like_sub2api(value@),
{
    let accounts = match json_get_member(value, "accounts") {
        Some(a) => a,
        None => {
            return false;
        },
    };
    let n = match json_array_length(accounts.as_str()) {
        Some(n) => n,
        None => {
            return false;
        },
    };
    if json_get_member(value, "exported_at").is_some() || json_get_member(value, "proxies").is_some() {
        return true;
    }
    let mut i: usize = 0;
    while i < n
        invariant
            i <= n,
            json_member(value@, "accounts"@) == Some(accounts@),
            json_array_len(accounts@) == Some(n),
            json_member(value@, "exported_at"@) is None && json_member(value@, "proxies"@) is None,
            forall|j: int| 0 <= j < i ==> !#[trigger] sub2api_item_marked(accounts@, j),
        decreases n - i,
    {
        match json_get_item(accounts.as_str(), i) {
            Some(it) => {
                if json_get_member(it.as_str(), "credentials").is_some() && json_get_member(it.as_str(), "platform").is_some() {
                    assert(sub2api_item_marked(accounts@, i as int));
                    return true;
                }
            },
            None => {},
        }
        i += 1;
    }
    false
}

/// The text at a single key, lower-cased, or empty.
pub open spec fn lowered_key(value: Seq<char>, key: Seq<char>) -> Seq<char> {
    match first_string_at(value, keys_as_paths(seq![key]), 0) {
        Some(s) => lower(s),
        None => Seq::empty(),
    }
}

/// `is_sub2api_codex_oauth_account`: an OpenAI OAuth account of an export.
pub open spec fn is_sub2api_oauth(value: Seq<char>) -> bool {
    lowered_key(value, "platform"@) == "openai"@ && lowered_key(value, "type"@) == "oauth"@
}

/// `is_sub2api_codex_oauth_account`.
pub fn is_sub2api_codex_oauth_account(value: &str) -> (r: bool)
    ensures
        r == is_sub2api_oauth(value@),
{
    let platform_paths: [&[&str]; 1] = [&["platform"]];
    let type_paths: [&[&str]; 1] = [&["type"]];
    assert(path_views(platform_paths@) =~~= keys_as_paths(seq!["platform"@]));
    assert(path_views(type_paths@) =~~= keys_as_paths(seq!["type"@]));
    let platform = match first_json_string(value, &platform_paths) {
        Some(p) => crate::text::lower_chars(&crate::text::chars_of(p.as_str())),
        None => Vec::new(),
    };
    let kind = match first_json_string(value, &type_paths) {
        Some(t) => crate::text::lower_chars(&crate::text::chars_of(t.as_str())),
        None => Vec::new(),
    };
    crate::text::chars_eq_str(&platform, "openai") && crate::text::chars_eq_str(&kind, "oauth")
}

/// The error for an export account whose token cannot be used.
pub open spec fn sub2api_missing_token(index: nat) -> Seq<char> {
    "Sub2API 第 "@ + nat_digits(index + 1) + " 个 OpenAI OAuth 账号缺少有效 access_token"@
}

/// Item `index` of a Sub2API export's accounts: the login it holds, or
/// the error naming the item.
pub fn sub2api_candidate(item: &str, index: usize) -> (r: Result<CodexJsonImportCandidate, String>)
    requires
        index < usize::MAX,
    ensures
        match import_candidate(item@) {
            Some(c) => r matches Ok(x) && candidate_view(x) == c,
            None => r matches Err(m) && m@ == sub2api_missing_token(index as nat),
        },
{
    match extract_codex_import_candidate_from_value(item) {
        Some(c) => Ok(c),
        None => {
            let a = crate::text::concat("Sub2API 第 ", crate::text::u64_text((index + 1) as u64).as_str());
            Err(crate::text::concat(a.as_str(), " 个 OpenAI OAuth 账号缺少有效 access_token"))
        },
    }
}

// ---------------------------------------------------------------------------
// Token lines and JSON lines
// ---------------------------------------------------------------------------

/// Pasted JSON is read as token lines when it is not blank
/// and starts with neither `{` nor `[`.
pub open spec fn is_token_lines(content: Seq<char>) -> bool {
    trim(content).len() > 0 && !starts_with(trim_start(content), "{"@) && !starts_with(trim_start(content), "["@)
}

/// Whether pasted JSON is read as token lines.
pub fn json_import_is_token_lines(content: &str) -> (r: bool)
    ensures
        r == is_token_lines(content@),
{
    let trimmed = crate::text::trimmed(content);
    if trimmed.len() == 0 {
        return false;
    }
    let open_brace: [char; 1] = ['{'];
    let open_bracket: [char; 1] = ['['];
    let s = crate::text::trim_start_chars(&crate::text::chars_of(content));
    proof {
        reveal_strlit("{");
        reveal_strlit("[");
        assert(open_brace@ =~= "{"@);
        assert(open_bracket@ =~= "["@);
    }
    !crate::text::starts_with_chars(&s, &open_brace) && !crate::text::starts_with_chars(&s, &open_bracket)
}

/// The non-blank lines of a text, trimmed, with their numbers (from 1),
/// among the first `n` lines.
pub open spec fn numbered_lines(lines: Seq<Seq<char>>, n: int) -> Seq<(nat, Seq<char>)>
    decreases n,
{
    if n <= 0 || n > lines.len() {
        Seq::empty()
    } else if trim(lines[n - 1]).len() > 0 {
        numbered_lines(lines, n - 1).push((n as nat, trim(lines[n - 1])))
    } else {
        numbered_lines(lines, n - 1)
    }
}

/// The non-blank lines of a text, trimmed, with their numbers.
pub open spec fn content_lines(content: Seq<char>) -> Seq<(nat, Seq<char>)> {
    numbered_lines(split_char(content, '\n'), split_char(content, '\n').len() as int)
}

/// The JSON objects of the first `k` numbered lines, or the error of the
/// first line that is no JSON object.
pub open spec fn line_objects(lines: Seq<(nat, Seq<char>)>, k: int) -> Result<Seq<Seq<char>>, Seq<char>>
    decreases k,
{
    if k <= 0 || k > lines.len() {
        Ok(Seq::empty())
    } else {
        match line_objects(lines, k - 1) {
            Err(e) => Err(e),
            Ok(vs) => {
                let (num, text) = lines[k - 1];
                match json_from_text(text) {
                    Err(e) => Err("第 "@ + nat_digits(num) + " 行不是有效 JSON: "@ + e),
                    Ok(p) => if is_object(p) {
                        Ok(vs.push(p))
                    } else {
                        Err("第 "@ + nat_digits(num) + " 行不是 JSON 对象"@)
                    },
                }
            },
        }
    }
}

proof fn lemma_line_objects_error_stays(lines: Seq<(nat, Seq<char>)>, k: int, m: int)
    requires
        0 < k <= m <= lines.len(),
        line_objects(lines, k) is Err,
    ensures
        line_objects(lines, m) == line_objects(lines, k),
    decreases m - k,
{
    if m > k {
        lemma_line_objects_error_stays(lines, k, m - 1);
    }
}

/// `parse_line_delimited_json_values`: with two or more non-blank lines,
/// the JSON object of each, or the error of the first line that is none.
pub open spec fn line_delimited_values(content: Seq<char>) -> Result<Option<Seq<Seq<char>>>, Seq<char>> {
    let lines = content_lines(content);
    if lines.len() <= 1 {
        Ok(None)
    } else {
        match line_objects(lines, lines.len() as int) {
            Ok(vs) => Ok(Some(vs)),
            Err(e) => Err(e),
        }
    }
}

/// The non-blank lines of a text with their numbers.
fn numbered_content_lines(content: &str) -> (r: Vec<(usize, Vec<char>)>)
    ensures
        r@.len() == content_lines(content@).len(),
        forall|i: int|
            0 <= i < r@.len() ==> (#[trigger] r@[i]).0 as nat == content_lines(content@)[i].0 && r@[i].1@
                == content_lines(content@)[i].1,
{
    let pieces = crate::text::split_on_char(&crate::text::chars_of(content), '\n');
    let ghost lines = split_char(content@, '\n');
    assert(pieces@.map_values(|p: Vec<char>| p@) == lines);
    let mut r: Vec<(usize, Vec<char>)> = Vec::new();
    let mut i: usize = 0;
    while i < pieces.len()
        invariant
            i <= pieces@.len(),
            pieces@.map_values(|p: Vec<char>| p@) == lines,
            lines.len() == pieces@.len(),
            r@.len() == numbered_lines(lines, i as int).len(),
            forall|k: int|
                0 <= k < r@.len() ==> (#[trigger] r@[k]).0 as nat == numbered_lines(lines, i as int)[k].0 && r@[k].1@
                    == numbered_lines(lines, i as int)[k].1,
        decreases pieces.len() - i,
    {
        assert(lines[i as int] == pieces@[i as int]@);
        let t = crate::text::trim_chars(&pieces[i]);
        if t.len() > 0 {
            r.push((i + 1, t));
        }
        i += 1;
    }
    r
}

/// `parse_line_delimited_json_values`.
pub fn parse_line_delimited_json_values(json_content: &str) -> (r: Result<Option<Vec<String>>, String>)
    ensures
        match line_delimited_values(json_content@) {
            Ok(None) => r matches Ok(None),
            Ok(Some(vs)) => r matches Ok(Some(v)) && strs(v@) == vs,
            Err(e) => r matches Err(m) && m@ == e,
        },
{
    let lines = numbered_content_lines(json_content);
    let ghost spec_lines = content_lines(json_content@);
    if lines.len() <= 1 {
        return Ok(None);
    }
    let mut values: Vec<String> = Vec::new();
    let mut k: usize = 0;
    assert(strs(values@) =~= Seq::<Seq<char>>::empty());
    while k < lines.len()
        invariant
            k <= lines@.len(),
            lines@.len() == spec_lines.len(),
            lines@.len() > 1,
            spec_lines == content_lines(json_content@),
            forall|i: int|
                0 <= i < lines@.len() ==> (#[trigger] lines@[i]).0 as nat == spec_lines[i].0 && lines@[i].1@
                    == spec_lines[i].1,
            line_objects(spec_lines, k as int) == Ok::<Seq<Seq<char>>, Seq<char>>(strs(values@)),
        decreases lines.len() - k,
    {
        let num = lines[k].0;
        let text = crate::text::string_of(&lines[k].1);
        assert(lines@[k as int].0 as nat == spec_lines[k as int].0);
        assert(text@ == spec_lines[k as int].1);
        let ghost before = strs(values@);
        match parse_json_text(text.as_str()) {
            Err(e) => {
                let a = crate::text::concat("第 ", crate::text::u64_text(num as u64).as_str());
                let b = crate::text::concat(a.as_str(), " 行不是有效 JSON: ");
                proof {
                    lemma_line_objects_error_stays(spec_lines, k + 1, spec_lines.len() as int);
                }
                return Err(crate::text::concat(b.as_str(), e.as_str()));
            },
            Ok(p) => {
                if !is_json_object(p.as_str()) {
                    let a = crate::text::concat("第 ", crate::text::u64_text(num as u64).as_str());
                    proof {
                        lemma_line_objects_error_stays(spec_lines, k + 1, spec_lines.len() as int);
                    }
                    return Err(crate::text::concat(a.as_str(), " 行不是 JSON 对象"));
                }
                values.push(p);
                assert(strs(values@) =~= before.push(values@.last()@));
                assert(line_objects(spec_lines, k + 1) == Ok::<Seq<Seq<char>>, Seq<char>>(before.push(values@.last()@)));
            },
        }
        k += 1;
    }
    Ok(Some(values))
}

/// The error for a line without a login.
pub open spec fn line_missing_token(index: nat) -> Seq<char> {
    "第 "@ + nat_digits(index + 1) + " 行未找到有效的 Codex Token（需要 session JSON、accessToken/access_token、id_token + access_token，或 refresh_token）"@
}

/// The import's error for JSON line `index` (from 0) that holds no
/// login.
pub fn line_missing_token_error(index: usize) -> (r: String)
    requires
        index < usize::MAX,
    ensures
        r@ == line_missing_token(index as nat),
{
    let a = crate::text::concat("第 ", crate::text::u64_text((index + 1) as u64).as_str());
    crate::text::concat(
        a.as_str(),
        " 行未找到有效的 Codex Token（需要 session JSON、accessToken/access_token、id_token + access_token，或 refresh_token）",
    )
}

/// The JSON values a token line stands for: the items of an array, a JSON
/// value, or the line itself as a string.
pub open spec fn token_line_values(line: Seq<char>) -> Seq<Seq<char>> {
    match json_from_text(line) {
        Ok(p) => match json_array_len(p) {
            Some(n) => present_items(p, n as int),
            None => seq![p],
        },
        Err(_) => seq![json_quote(line)],
    }
}

/// The items of a JSON array that are there, among the first `n`.
pub open spec fn present_items(array: Seq<char>, n: int) -> Seq<Seq<char>>
    decreases n,
{
    if n <= 0 {
        Seq::empty()
    } else {
        match json_item(array, (n - 1) as usize) {
            Some(it) => present_items(array, n - 1).push(it),
            None => present_items(array, n - 1),
        }
    }
}

/// The values of all token lines, from the first `k` non-blank lines.
pub open spec fn token_values_of(lines: Seq<(nat, Seq<char>)>, k: int) -> Seq<Seq<char>>
    decreases k,
{
    if k <= 0 || k > lines.len() {
        Seq::empty()
    } else {
        token_values_of(lines, k - 1) + token_line_values(lines[k - 1].1)
    }
}

/// Pasted token lines, before any import: the JSON values of the content's
/// non-blank lines, in order; an error when there are none.
pub open spec fn token_lines_values(content: Seq<char>) -> Result<Seq<Seq<char>>, Seq<char>> {
    let lines = content_lines(content);
    if lines.len() == 0 {
        Err("Token 不能为空"@)
    } else {
        Ok(token_values_of(lines, lines.len() as int))
    }
}

/// The values of one token line.
fn line_values(line: &str) -> (r: Vec<String>)
    ensures
        strs(r@) == token_line_values(line@),
{
    match parse_json_text(line) {
        Ok(p) => match json_array_length(p.as_str()) {
            Some(n) => {
                let mut r: Vec<String> = Vec::new();
                let mut i: usize = 0;
                while i < n
                    invariant
                        i <= n,
                        strs(r@) == present_items(p@, i as int),
                    decreases n - i,
                {
                    match json_get_item(p.as_str(), i) {
                        Some(it) => {
                            r.push(it);
                            assert(strs(r@) =~= strs(r@.drop_last()).push(r@.last()@));
                        },
                        None => {},
                    }
                    i += 1;
                }
                r
            },
            None => {
                let r = vec![p];
                assert(strs(r@) =~= seq![r@[0]@]);
                r
            },
        },
        Err(_) => {
            let r = vec![json_string_value(line)];
            assert(strs(r@) =~= seq![r@[0]@]);
            r
        },
    }
}

/// The JSON values of pasted token lines, before any import.
pub fn token_line_values_of(content: &str) -> (r: Result<Vec<String>, String>)
    ensures
        match token_lines_values(content@) {
            Ok(vs) => r matches Ok(v) && strs(v@) == vs,
            Err(e) => r matches Err(m) && m@ == e,
        },
{
    let lines = numbered_content_lines(content);
    let ghost spec_lines = content_lines(content@);
    if lines.len() == 0 {
        return Err("Token 不能为空".to_string());
    }
    let mut values: Vec<String> = Vec::new();
    let mut k: usize = 0;
    while k < lines.len()
        invariant
            k <= lines@.len(),
            lines@.len() == spec_lines.len(),
            forall|i: int| 0 <= i < lines@.len() ==> (#[trigger] lines@[i]).1@ == spec_lines[i].1,
            strs(values@) == token_values_of(spec_lines, k as int),
        decreases lines.len() - k,
    {
        let text = crate::text::string_of(&lines[k].1);
        assert(text@ == spec_lines[k as int].1);
        let mut more = line_values(text.as_str());
        let ghost before = values@;
        values.append(&mut more);
        assert(strs(values@) =~= strs(before) + token_line_values(text@));
        k += 1;
    }
    Ok(values)
}

/// The error for a token line value without a login.
pub open spec fn token_missing() -> Seq<char> {
    "未找到有效的 Codex Token（需要 session JSON、accessToken/access_token、id_token + access_token，或 refresh_token）"@
}

/// One value of pasted token lines: the login it holds, or the error.
pub fn token_line_candidate(value: &str) -> (r: Result<CodexJsonImportCandidate, String>)
    ensures
        match import_candidate(value@) {
            Some(c) => r matches Ok(x) && candidate_view(x) == c,
            None => r matches Err(m) && m@ == token_missing(),
        },
{
    match extract_codex_import_candidate_from_value(value) {
        Some(c) => Ok(c),
        None => Err(
            "未找到有效的 Codex Token（需要 session JSON、accessToken/access_token、id_token + access_token，或 refresh_token）".to_string(),
        ),
    }
}

/// `upsert_account_from_auth_tokens`: the tokens of an `auth.json` file,
/// stored at time `now` from the access token alone when the id token is
/// blank and the access token decodes, else with the file's account id as
/// a hint.
pub fn upsert_account_from_auth_tokens(
    index: &mut CodexAccountIndex,
    loaded: Vec<Option<CodexAccount>>,
    tokens: CodexAuthTokens,
    now: i64,
) -> (r: Result<CodexAccount, String>)
    requires
        loaded@.len() == old(index).accounts@.len(),
    ensures
        final(index).current_account_id == old(index).current_account_id,
        non_blank(tokens.id_token@) is None && jwt_json(tokens.access_token@) is Some ==> access_token_upsert(
            old(index).accounts@,
            final(index).accounts@,
            loaded@,
            tokens.access_token@,
            None,
            now,
            r,
        ),
        !(non_blank(tokens.id_token@) is None && jwt_json(tokens.access_token@) is Some) ==> hinted_upsert(
            old(index).accounts@,
            final(index).accounts@,
            loaded@,
            CodexTokens {
                id_token: tokens.id_token,
                access_token: tokens.access_token,
                refresh_token: tokens.refresh_token,
            },
            opt_str(tokens.account_id),
            None,
            now,
            r,
        ),
{
    let CodexAuthTokens { id_token, access_token, refresh_token, account_id } = tokens;
    if normalize_optional_ref(Some(id_token.as_str())).is_none() && decodes(access_token.as_str()) {
        return upsert_account_from_access_token(index, loaded, access_token, None, now);
    }
    upsert_account_with_hints(
        index,
        loaded,
        CodexTokens { id_token, access_token, refresh_token },
        account_id,
        None,
        now,
    )
}

/// An imported value that reads as a whole stored account is treated
/// as an API key account when it says so or carries a key.
pub fn imported_struct_is_api_key(account: &CodexAccount) -> (r: bool)
    ensures
        r == (account.auth_mode == CodexAuthMode::Apikey || account.openai_api_key is Some),
{
    account.is_api_key_auth() || account.openai_api_key.is_some()
}

/// The key of an imported stored API key account,
/// trimmed, or the error when it has none.
pub fn imported_struct_api_key(account: &CodexAccount) -> (r: Result<String, String>)
    ensures
        match normalized_opt(opt_str(account.openai_api_key)) {
            Some(k) => r matches Ok(x) && x@ == k,
            None => r matches Err(m) && m@ == "API Key 账号缺少 OPENAI_API_KEY"@,
        },
{
    let key = match &account.openai_api_key {
        Some(k) => normalize_optional_ref(Some(k.as_str())),
        None => None,
    };
    match key {
        Some(k) => Ok(k),
        None => Err("API Key 账号缺少 OPENAI_API_KEY".to_string()),
    }
}

// ---------------------------------------------------------------------------
// Importing files
// ---------------------------------------------------------------------------

/// `is_disk_full_error_message`: the message, lower-cased, tells of a full
/// disk.
pub open spec fn tells_disk_full(message: Seq<char>) -> bool {
    let l = lower(message);
    ||| contains(l, "disk_full:"@)
    ||| contains(l, "os error 28"@)
    ||| contains(l, "os error 112"@)
    ||| contains(l, "no space left on device"@)
    ||| contains(l, "not enough space on the disk"@)
    ||| contains(l, "磁盘空间不足"@)
}

/// `is_disk_full_error_message`.
pub fn is_disk_full_error_message(message: &str) -> (r: bool)
    ensures
        r == tells_disk_full(message@),
{
    let l = crate::text::lower_chars(&crate::text::chars_of(message));
    let s = crate::text::string_of(&l);
    crate::text::contains_str(s.as_str(), "disk_full:") || crate::text::contains_str(s.as_str(), "os error 28")
        || crate::text::contains_str(s.as_str(), "os error 112") || crate::text::contains_str(
        s.as_str(),
        "no space left on device",
    ) || crate::text::contains_str(s.as_str(), "not enough space on the disk") || crate::text::contains_str(
        s.as_str(),
        "磁盘空间不足",
    )
}

/// `is_disk_full_io_error` on an I/O error's OS code: 28 (no space left on
/// device) or 112 (not enough space on the disk).
pub open spec fn disk_full_os_error(code: Option<i32>) -> bool {
    code == Some(28i32) || code == Some(112i32)
}

/// `is_disk_full_io_error`, given the error's OS code.
pub fn is_disk_full_io_error(os_error: Option<i32>) -> (r: bool)
    ensures
        r == disk_full_os_error(os_error),
{
    match os_error {
        Some(code) => code == 28 || code == 112,
        None => false,
    }
}

/// What `format_io_error` says of a failed `action` on `path`: a full disk
/// is reported under its error code with advice, any other failure with
/// the error's text.
pub open spec fn io_error_text(action: Seq<char>, path: Seq<char>, os_error: Option<i32>, error: Seq<char>) -> Seq<
    char,
> {
    if disk_full_os_error(os_error) {
        "DISK_FULL:"@ + action + "失败: path="@ + path + ", 磁盘空间不足，请清理磁盘后重试"@
    } else {
        action + "失败: path="@ + path + ", error="@ + error
    }
}

/// `format_io_error`, given the path as text and the error's OS code and
/// text.
pub fn format_io_error(action: &str, path: &str, os_error: Option<i32>, error: &str) -> (r: String)
    ensures
        r@ == io_error_text(action@, path@, os_error, error@),
{
    if is_disk_full_io_error(os_error) {
        let a = concat("DISK_FULL:", action);
        let b = concat(a.as_str(), "失败: path=");
        let c = concat(b.as_str(), path);
        concat(c.as_str(), ", 磁盘空间不足，请清理磁盘后重试")
    } else {
        let a = concat(action, "失败: path=");
        let b = concat(a.as_str(), path);
        let c = concat(b.as_str(), ", error=");
        concat(c.as_str(), error)
    }
}

/// An I/O failure on a full disk is reported in words that
/// `is_disk_full_error_message` recognises, so an import that meets it
/// stops rather than recording the file as failed.
pub proof fn law_full_disk_io_error_is_recognised(action: Seq<char>, path: Seq<char>, os_error: Option<i32>, error: Seq<char>)
    requires
        disk_full_os_error(os_error),
    ensures
        tells_disk_full(io_error_text(action, path, os_error, error)),
{
    reveal_strlit("DISK_FULL:");
    reveal_strlit("disk_full:");
    let t = io_error_text(action, path, os_error, error);
    let l = lower(t);
    assert(t.subrange(0, 10) =~= "DISK_FULL:"@);
    assert forall|k: int| 0 <= k < 10 implies l[k] == "disk_full:"@[k] by {
        assert(l[k] == lower_char(t[k]));
        assert(t[k] == "DISK_FULL:"@[k]);
    }
    assert(l.subrange(0, 10) =~= "disk_full:"@);
    assert(crate::text::occurs_at(l, "disk_full:"@, 0));
}

/// The error that stops a file import on a full disk, after `imported`
/// accounts.
pub fn disk_full_import_error(imported: usize, error: &str) -> (r: String)
    ensures
        r@ == "磁盘空间不足，已终止导入（已成功 "@ + nat_digits(imported as nat) + " 个）。"@ + error@,
{
    let a = crate::text::concat("磁盘空间不足，已终止导入（已成功 ", crate::text::u64_text(imported as u64).as_str());
    let b = crate::text::concat(a.as_str(), " 个）。");
    crate::text::concat(b.as_str(), error)
}

/// A login found in an imported file: its tokens, account id hint, the
/// label it is reported under, and the plan its file name tells.
#[derive(Debug)]
pub struct FileImportCandidate {
    pub tokens: CodexTokens,
    pub account_id_hint: Option<String>,
    pub label: String,
    pub auth_file_plan_type: Option<String>,
}

/// A file import candidate as texts.
pub open spec fn file_candidate_view(c: FileImportCandidate) -> (
    (Seq<char>, Seq<char>, Option<Seq<char>>, Option<Seq<char>>),
    Seq<char>,
    Option<Seq<char>>,
) {
    (
        (c.tokens.id_token@, c.tokens.access_token@, opt_str(c.tokens.refresh_token), opt_str(c.account_id_hint)),
        c.label@,
        opt_str(c.auth_file_plan_type),
    )
}

/// The token sets among the first `n` items of an array, each labelled by
/// its `email` string or else by the file name.
pub open spec fn array_file_candidates(array: Seq<char>, n: int, label: Seq<char>) -> Seq<
    ((Seq<char>, Seq<char>, Option<Seq<char>>, Option<Seq<char>>), Seq<char>),
>
    decreases n,
{
    if n <= 0 {
        Seq::empty()
    } else {
        let rest = array_file_candidates(array, n - 1, label);
        match json_item(array, (n - 1) as usize) {
            Some(it) => match codex_tokens_in(it) {
                Some(t) => rest.push(
                    (
                        t,
                        match json_member(it, "email"@) {
                            Some(e) => match json_string(e) {
                                Some(x) => x,
                                None => label,
                            },
                            None => label,
                        },
                    ),
                ),
                None => rest,
            },
            None => rest,
        }
    }
}

/// Importing files, for one file's content: the token sets it holds
/// (an object's, labelled by the file name, or those of an array's items),
/// or nothing, when the content is to be imported as pasted JSON instead.
pub open spec fn file_candidates(content: Seq<char>, label: Seq<char>) -> Option<
    Seq<((Seq<char>, Seq<char>, Option<Seq<char>>, Option<Seq<char>>), Seq<char>)>,
> {
    match json_from_text(content) {
        Err(_) => None,
        Ok(p) => {
            let found = if is_object(p) {
                match codex_tokens_in(p) {
                    Some(t) => seq![(t, label)],
                    None => Seq::empty(),
                }
            } else {
                match json_array_len(p) {
                    Some(n) => array_file_candidates(p, n as int, label),
                    None => Seq::empty(),
                }
            };
            if found.len() == 0 {
                None
            } else {
                Some(found)
            }
        },
    }
}

/// Importing files, for one file: the logins found in its content,
/// labelled and given the plan of its file name; nothing when the content
/// is to be imported as pasted JSON.
pub fn file_import_candidates(content: &str, label: &str, auth_file_plan_type: &Option<String>) -> (r: Option<
    Vec<FileImportCandidate>,
>)
    ensures
        match file_candidates(content@, label@) {
            None => r is None,
            Some(cs) => r matches Some(v) && v@.len() == cs.len() && forall|i: int|
                0 <= i < cs.len() ==> (#[trigger] file_candidate_view(v@[i])) == (
                    cs[i].0,
                    cs[i].1,
                    opt_str(*auth_file_plan_type),
                ),
        },
{
    let parsed = match parse_json_text(content) {
        Ok(p) => p,
        Err(_) => {
            return None;
        },
    };
    let mut found: Vec<FileImportCandidate> = Vec::new();
    if is_json_object(parsed.as_str()) {
        match extract_codex_tokens_from_value(parsed.as_str()) {
            Some((tokens, hint)) => {
                found.push(
                    FileImportCandidate {
                        tokens,
                        account_id_hint: hint,
                        label: label.to_string(),
                        auth_file_plan_type: crate::strings::clone_opt_string(auth_file_plan_type),
                    },
                );
            },
            None => {},
        }
    } else {
        match json_array_length(parsed.as_str()) {
            Some(n) => {
                let mut i: usize = 0;
                while i < n
                    invariant
                        i <= n,
                        json_from_text(content@) == Ok::<Seq<char>, Seq<char>>(parsed@),
                        found@.len() == array_file_candidates(parsed@, i as int, label@).len(),
                        forall|k: int|
                            0 <= k < found@.len() ==> (#[trigger] file_candidate_view(found@[k])) == (
                                array_file_candidates(parsed@, i as int, label@)[k].0,
                                array_file_candidates(parsed@, i as int, label@)[k].1,
                                opt_str(*auth_file_plan_type),
                            ),
                    decreases n - i,
                {
                    match json_get_item(parsed.as_str(), i) {
                        Some(it) => match extract_codex_tokens_from_value(it.as_str()) {
                            Some((tokens, hint)) => {
                                let item_label = match json_get_member(it.as_str(), "email") {
                                    Some(e) => match json_as_string(e.as_str()) {
                                        Some(x) => x,
                                        None => label.to_string(),
                                    },
                                    None => label.to_string(),
                                };
                                found.push(
                                    FileImportCandidate {
                                        tokens,
                                        account_id_hint: hint,
                                        label: item_label,
                                        auth_file_plan_type: crate::strings::clone_opt_string(auth_file_plan_type),
                                    },
                                );
                            },
                            None => {},
                        },
                        None => {},
                    }
                    i += 1;
                }
            },
            None => {},
        }
    }
    if found.len() == 0 {
        None
    } else {
        Some(found)
    }
}

// ---------------------------------------------------------------------------
// The outcome of an import from files
// ---------------------------------------------------------------------------

/// A file (or one login in it) that could not be imported: the label it is
/// reported under and the reason.
#[derive(Debug)]
pub struct CodexFileImportFailure {
    pub email: String,
    pub error: String,
}

/// What an import from files brought: the accounts stored, in the order
/// they were stored, and what failed.
#[derive(Debug)]
pub struct CodexFileImportResult {
    pub imported: Vec<CodexAccount>,
    pub failed: Vec<CodexFileImportFailure>,
}

impl CodexFileImportResult {
    /// Nothing imported yet, nothing failed.
    pub fn new() -> (r: Self)
        ensures
            r.imported@.len() == 0,
            r.failed@.len() == 0,
    {
        CodexFileImportResult { imported: Vec::new(), failed: Vec::new() }
    }
}

/// One step of importing files: records what importing one login (or
/// one file's whole content) gave. Stored accounts are added after those
/// before them; a failure is recorded under its label, except a full disk,
/// which stops the whole import with the number of accounts stored so far
/// and leaves the record as it was.
pub fn record_file_import_outcome(
    result: &mut CodexFileImportResult,
    label: String,
    outcome: Result<Vec<CodexAccount>, String>,
) -> (r: Result<(), String>)
    ensures
        match outcome {
            Ok(accounts) => {
                &&& r is Ok
                &&& final(result).imported@ == old(result).imported@ + accounts@
                &&& final(result).failed@ == old(result).failed@
            },
            Err(e) => if tells_disk_full(e@) {
                &&& r matches Err(m) && m@ == "磁盘空间不足，已终止导入（已成功 "@ + nat_digits(
                    old(result).imported@.len(),
                ) + " 个）。"@ + e@
                &&& *final(result) == *old(result)
            } else {
                &&& r is Ok
                &&& final(result).imported@ == old(result).imported@
                &&& final(result).failed@ == old(result).failed@.push(
                    (CodexFileImportFailure { email: label, error: e }),
                )
            },
        },
{
    match outcome {
        Ok(accounts) => {
            let mut accounts = accounts;
            result.imported.append(&mut accounts);
            Ok(())
        },
        Err(e) => {
            if is_disk_full_error_message(e.as_str()) {
                Err(disk_full_import_error(result.imported.len(), e.as_str()))
            } else {
                result.failed.push(CodexFileImportFailure { email: label, error: e });
                Ok(())
            }
        },
    }
}

// ---------------------------------------------------------------------------
// Codex's auth.json pasted as an import
// ---------------------------------------------------------------------------

/// The login an imported `auth.json` holds.
#[derive(Debug)]
pub enum AuthFileLogin {
    /// An API key login with this key.
    ApiKey { api_key: String },
    /// The OAuth tokens of the file.
    Tokens,
    /// Neither: the text is read another way.
    Neither,
}

/// How pasted JSON reads as an `auth.json` (its auth mode, its API key
/// when that is a string, whether it holds tokens): in API key mode its key,
/// refused without one; else its tokens when it has them; else its key when
/// it has one.
pub fn auth_file_login(auth_mode: Option<&str>, openai_api_key: Option<&str>, has_tokens: bool) -> (r: Result<
    AuthFileLogin,
    String,
>)
    ensures
        ({
            let key = match openai_api_key {
                Some(k) => non_blank(k@),
                None => None,
            };
            let apikey_mode = match auth_mode {
                Some(m) => lower(trim(m@)) == "apikey"@,
                None => false,
            };
            if apikey_mode {
                match key {
                    Some(k) => r matches Ok(AuthFileLogin::ApiKey { api_key }) && api_key@ == k,
                    None => r matches Err(e) && e@ == "auth.json 缺少 OPENAI_API_KEY"@,
                }
            } else if has_tokens {
                r matches Ok(AuthFileLogin::Tokens)
            } else {
                match key {
                    Some(k) => r matches Ok(AuthFileLogin::ApiKey { api_key }) && api_key@ == k,
                    None => r matches Ok(AuthFileLogin::Neither),
                }
            }
        }),
{
    let key = match openai_api_key {
        Some(k) => crate::codex::normalize_api_key(k),
        None => None,
    };
    if crate::codex::is_auth_mode_apikey(auth_mode) {
        return match key {
            Some(api_key) => Ok(AuthFileLogin::ApiKey { api_key }),
            None => Err("auth.json 缺少 OPENAI_API_KEY".to_string()),
        };
    }
    if has_tokens {
        return Ok(AuthFileLogin::Tokens);
    }
    match key {
        Some(api_key) => Ok(AuthFileLogin::ApiKey { api_key }),
        None => Ok(AuthFileLogin::Neither),
    }
}

} // verus!
