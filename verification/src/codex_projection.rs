//! Where a stored OAuth login is written through to: the Codex homes whose
//! bound account is that login, or an API key account bound to it.
use vstd::prelude::*;
use crate::codex::{
    missing_account, CodexAccountIndex, account_has_refresh_token, non_blank, normalize_optional_ref, normalized_opt, opt_ref, CodexAccount, CodexAuthMode,
};
use crate::codex::{local_oauth_snapshot_matches_account, snapshot_matches, LocalCodexOAuthSnapshot};
use crate::codex_sync::{apply_local_oauth_snapshot, snapshot_applied};
use crate::strings::{first_occurrences, list_contains, opt_str, strs};
use crate::text::str_eq;

verus! {

broadcast use vstd::string::group_string_axioms;

/// A Codex home that accounts can be bound to: its directory and the id of
/// the account bound to it.
#[derive(Debug)]
pub struct CodexHomeBinding {
    pub dir: String,
    pub bind_account_id: Option<String>,
}

/// An API key account bound to the OAuth account `oauth_id`.
pub open spec fn api_key_bound(a: CodexAccount, oauth_id: Seq<char>) -> bool {
    a.auth_mode == CodexAuthMode::Apikey && opt_str(a.bound_oauth_account_id) == Some(oauth_id)
}

/// Whether the bound id `bound` stands for the OAuth account `oauth_id`:
/// it is that account, or a stored API key account bound to it.
pub open spec fn bound_to(bound: Option<Seq<char>>, oauth_id: Seq<char>, accounts: Seq<CodexAccount>) -> bool {
    match bound {
        None => false,
        Some(b) => b == oauth_id || exists|i: int|
            0 <= i < accounts.len() && accounts[i].id@ == b && #[trigger] api_key_bound(accounts[i], oauth_id),
    }
}

/// The directories of the homes bound to `oauth_id`, in order.
pub open spec fn bound_home_dirs(homes: Seq<CodexHomeBinding>, oauth_id: Seq<char>, accounts: Seq<CodexAccount>) -> Seq<
    Seq<char>,
>
    decreases homes.len(),
{
    if homes.len() == 0 {
        Seq::empty()
    } else {
        let rest = bound_home_dirs(homes.drop_last(), oauth_id, accounts);
        if bound_to(opt_str(homes.last().bind_account_id), oauth_id, accounts) {
            rest.push(homes.last().dir@)
        } else {
            rest
        }
    }
}

/// The homes a login is written through to, before repeats are dropped:
/// Codex's own home when the current account stands for it, then each
/// bound home that does.
pub open spec fn projection_candidates(
    oauth_id: Seq<char>,
    current_account_id: Option<Seq<char>>,
    codex_home: Seq<char>,
    homes: Seq<CodexHomeBinding>,
    accounts: Seq<CodexAccount>,
) -> Seq<Seq<char>> {
    let own: Seq<Seq<char>> = if bound_to(current_account_id, oauth_id, accounts) {
        seq![codex_home]
    } else {
        Seq::empty()
    };
    own + bound_home_dirs(homes, oauth_id, accounts)
}

/// The homes a login is written through to are each listed once, and are
/// exactly the candidate homes: keeping first occurrences drops repeats and
/// nothing else.
pub proof fn law_first_occurrences_once(s: Seq<Seq<char>>)
    ensures
        forall|i: int, j: int|
            0 <= i < j < first_occurrences(s).len() ==> #[trigger] first_occurrences(s)[i]
                != #[trigger] first_occurrences(s)[j],
        forall|x: Seq<char>| #[trigger] first_occurrences(s).contains(x) <==> s.contains(x),
    decreases s.len(),
{
    if s.len() > 0 {
        let prev = s.drop_last();
        law_first_occurrences_once(prev);
        let kept = first_occurrences(prev);
        assert forall|x: Seq<char>| #[trigger] first_occurrences(s).contains(x) <==> s.contains(x) by {
            if s.contains(x) && x != s.last() {
                let k = choose|k: int| 0 <= k < s.len() && s[k] == x;
                assert(prev[k] == x);
            }
            if prev.contains(x) {
                let k = choose|k: int| 0 <= k < prev.len() && prev[k] == x;
                assert(s[k] == x);
            }
            if kept.contains(s.last()) {
            } else {
                let pushed = kept.push(s.last());
                if kept.contains(x) {
                    let k = choose|k: int| 0 <= k < kept.len() && kept[k] == x;
                    assert(pushed[k] == x);
                }
                if x == s.last() {
                    assert(pushed[kept.len() as int] == x);
                }
                if pushed.contains(x) {
                    let k = choose|k: int| 0 <= k < pushed.len() && pushed[k] == x;
                    if k < kept.len() {
                        assert(kept[k] == x);
                    }
                }
            }
            assert(s.contains(s.last())) by {
                assert(s[s.len() - 1] == s.last());
            }
        }
    }
}

/// Whether the bound id `bound` stands for the OAuth account `oauth_id`,
/// directly or through an API key account bound to it.
pub fn is_bound_to_account(bound: Option<&str>, oauth_id: &str, accounts: &Vec<CodexAccount>) -> (r: bool)
    ensures
        r == bound_to(opt_ref(bound), oauth_id@, accounts@),
{
    let b = match bound {
        None => {
            return false;
        },
        Some(b) => b,
    };
    if str_eq(b, oauth_id) {
        return true;
    }
    let mut i: usize = 0;
    while i < accounts.len()
        invariant
            i <= accounts.len(),
            opt_ref(bound) == Some(b@),
            b@ != oauth_id@,
            forall|j: int| 0 <= j < i ==> !(accounts@[j].id@ == b@ && #[trigger] api_key_bound(accounts@[j], oauth_id@)),
        decreases accounts.len() - i,
    {
        let a = &accounts[i];
        let bound_oauth = match &a.bound_oauth_account_id {
            Some(x) => str_eq(x.as_str(), oauth_id),
            None => false,
        };
        if str_eq(a.id.as_str(), b) && a.is_api_key_auth() && bound_oauth {
            assert(accounts@[i as int].id@ == b@);
            assert(api_key_bound(accounts@[i as int], oauth_id@));
            return true;
        }
        i += 1;
    }
    false
}

/// The list with each item kept at its first occurrence only.
pub fn dedup_dirs(v: Vec<String>) -> (r: Vec<String>)
    ensures
        strs(r@) == first_occurrences(strs(v@)),
{
    let mut out: Vec<String> = Vec::new();
    let mut i: usize = 0;
    while i < v.len()
        invariant
            i <= v.len(),
            strs(out@) == first_occurrences(strs(v@).take(i as int)),
        decreases v.len() - i,
    {
        let ghost prefix = strs(v@).take(i as int + 1);
        assert(prefix.drop_last() =~= strs(v@).take(i as int));
        assert(prefix.last() == v@[i as int]@);
        if !list_contains(&out, v[i].as_str()) {
            out.push(v[i].clone());
            assert(strs(out@) =~= first_occurrences(strs(v@).take(i as int)).push(v@[i as int]@));
        }
        i += 1;
    }
    assert(strs(v@).take(v.len() as int) =~= strs(v@));
    out
}

/// `managed_projection_dirs_for_account`: given the current account, Codex's
/// own home, the bound homes (the default home, then each instance) and the
/// stored accounts, the homes the OAuth account `account_id` is written
/// through to, each once, in order.
pub fn managed_projection_dirs_for_account(
    account_id: &str,
    current_account_id: Option<&str>,
    codex_home: &str,
    homes: &Vec<CodexHomeBinding>,
    accounts: &Vec<CodexAccount>,
) -> (r: Vec<String>)
    ensures
        strs(r@) == first_occurrences(
            projection_candidates(account_id@, opt_ref(current_account_id), codex_home@, homes@, accounts@),
        ),
{
    let mut dirs: Vec<String> = Vec::new();
    if is_bound_to_account(current_account_id, account_id, accounts) {
        dirs.push(codex_home.to_string());
    }
    let ghost own = strs(dirs@);
    let mut i: usize = 0;
    while i < homes.len()
        invariant
            i <= homes.len(),
            strs(dirs@) == own + bound_home_dirs(homes@.take(i as int), account_id@, accounts@),
        decreases homes.len() - i,
    {
        let home = &homes[i];
        let ghost before = strs(dirs@);
        let ghost taken = homes@.take(i as int + 1);
        assert(taken.drop_last() =~= homes@.take(i as int));
        assert(taken.last() == home);
        let bind = match &home.bind_account_id {
            Some(b) => Some(b.as_str()),
            None => None,
        };
        assert(opt_ref(bind) == opt_str(home.bind_account_id));
        if is_bound_to_account(bind, account_id, accounts) {
            let d = home.dir.clone();
            dirs.push(d);
            assert(strs(dirs@) =~= before.push(home.dir@));
            assert(bound_home_dirs(taken, account_id@, accounts@) == bound_home_dirs(
                homes@.take(i as int),
                account_id@,
                accounts@,
            ).push(home.dir@));
        } else {
            assert(bound_home_dirs(taken, account_id@, accounts@) == bound_home_dirs(
                homes@.take(i as int),
                account_id@,
                accounts@,
            ));
        }
        i += 1;
    }
    assert(homes@.take(homes.len() as int) =~= homes@);
    assert(strs(dirs@) =~= projection_candidates(account_id@, opt_ref(current_account_id), codex_home@, homes@, accounts@));
    dedup_dirs(dirs)
}

/// The position of the first stored account with id `id`.
pub open spec fn index_of_id(accounts: Seq<CodexAccount>, id: Seq<char>) -> Option<int>
    decreases accounts.len(),
{
    if accounts.len() == 0 {
        None
    } else {
        match index_of_id(accounts.drop_last(), id) {
            Some(k) => Some(k),
            None => if accounts.last().id@ == id {
                Some(accounts.len() - 1)
            } else {
                None
            },
        }
    }
}

/// The stored account that a bound id names, by position, when it is an
/// API key account bound to `oauth_id`.
pub open spec fn bound_api_key_account(accounts: Seq<CodexAccount>, bound: Option<Seq<char>>, oauth_id: Seq<char>) -> Option<
    int,
> {
    match bound {
        None => None,
        Some(b) => match index_of_id(accounts, b) {
            Some(k) => if api_key_bound(accounts[k], oauth_id) {
                Some(k)
            } else {
                None
            },
            None => None,
        },
    }
}

/// The bound ids of the homes whose directory is `dir`, in order.
pub open spec fn home_binds_at(homes: Seq<CodexHomeBinding>, dir: Seq<char>) -> Seq<Option<Seq<char>>>
    decreases homes.len(),
{
    if homes.len() == 0 {
        Seq::empty()
    } else {
        let rest = home_binds_at(homes.drop_last(), dir);
        if homes.last().dir@ == dir {
            rest.push(opt_str(homes.last().bind_account_id))
        } else {
            rest
        }
    }
}

/// The first of the bound ids that names an API key account bound to
/// `oauth_id`.
pub open spec fn first_bound_api_key(accounts: Seq<CodexAccount>, binds: Seq<Option<Seq<char>>>, oauth_id: Seq<char>) -> Option<
    int,
>
    decreases binds.len(),
{
    if binds.len() == 0 {
        None
    } else {
        match first_bound_api_key(accounts, binds.drop_last(), oauth_id) {
            Some(k) => Some(k),
            None => bound_api_key_account(accounts, binds.last(), oauth_id),
        }
    }
}

/// The bound ids that decide which API key account a home writes for:
/// the current account's for Codex's own home, then those of the bound
/// homes at that directory.
pub open spec fn projection_binds(
    dir: Seq<char>,
    current_account_id: Option<Seq<char>>,
    codex_home: Seq<char>,
    homes: Seq<CodexHomeBinding>,
) -> Seq<Option<Seq<char>>> {
    let own: Seq<Option<Seq<char>>> = if dir == codex_home {
        seq![current_account_id]
    } else {
        Seq::empty()
    };
    own + home_binds_at(homes, dir)
}

/// The position of the first stored account with id `id`.
pub fn find_account_by_id(accounts: &Vec<CodexAccount>, id: &str) -> (r: Option<usize>)
    ensures
        r matches Some(k) ==> k < accounts@.len(),
        match r {
            Some(k) => index_of_id(accounts@, id@) == Some(k as int),
            None => index_of_id(accounts@, id@) is None,
        },
{
    let mut i: usize = 0;
    while i < accounts.len()
        invariant
            i <= accounts.len(),
            index_of_id(accounts@.take(i as int), id@) is None,
        decreases accounts.len() - i,
    {
        assert(accounts@.take(i as int + 1).drop_last() =~= accounts@.take(i as int));
        if str_eq(accounts[i].id.as_str(), id) {
            proof {
                lemma_index_of_id_prefix(accounts@, id@, i as int + 1);
            }
            return Some(i);
        }
        i += 1;
    }
    assert(accounts@.take(accounts.len() as int) =~= accounts@);
    None
}

/// A first occurrence found in a prefix is the first occurrence in the whole.
proof fn lemma_index_of_id_prefix(accounts: Seq<CodexAccount>, id: Seq<char>, n: int)
    requires
        0 <= n <= accounts.len(),
        index_of_id(accounts.take(n), id) is Some,
    ensures
        index_of_id(accounts, id) == index_of_id(accounts.take(n), id),
    decreases accounts.len(),
{
    if n < accounts.len() {
        assert(accounts.drop_last().take(n) =~= accounts.take(n));
        lemma_index_of_id_prefix(accounts.drop_last(), id, n);
    } else {
        assert(accounts.take(n) =~= accounts);
    }
}

/// The stored account a bound id names, by position, when it is an API key
/// account bound to `oauth_id`.
fn bound_api_key_account_index(accounts: &Vec<CodexAccount>, bound: Option<&str>, oauth_id: &str) -> (r: Option<usize>)
    ensures
        match r {
            Some(k) => bound_api_key_account(accounts@, opt_ref(bound), oauth_id@) == Some(k as int),
            None => bound_api_key_account(accounts@, opt_ref(bound), oauth_id@) is None,
        },
{
    let b = match bound {
        Some(b) => b,
        None => {
            return None;
        },
    };
    match find_account_by_id(accounts, b) {
        Some(k) => {
            let a = &accounts[k];
            let bound_oauth = match &a.bound_oauth_account_id {
                Some(x) => str_eq(x.as_str(), oauth_id),
                None => false,
            };
            if a.is_api_key_auth() && bound_oauth {
                Some(k)
            } else {
                None
            }
        },
        None => None,
    }
}

/// `load_bound_api_key_account_for_projection_dir`: the stored API key
/// account (by position in `accounts`) whose write-through to `dir` goes
/// with the OAuth account `oauth_account_id`: the current account when
/// `dir` is Codex's own home, else the account bound to the default home
/// or an instance at `dir`, the first that is an API key account bound to
/// that login.
pub fn load_bound_api_key_account_for_projection_dir(
    oauth_account_id: &str,
    dir: &str,
    current_account_id: Option<&str>,
    codex_home: &str,
    homes: &Vec<CodexHomeBinding>,
    accounts: &Vec<CodexAccount>,
) -> (r: Option<usize>)
    ensures
        match r {
            Some(k) => first_bound_api_key(
                accounts@,
                projection_binds(dir@, opt_ref(current_account_id), codex_home@, homes@),
                oauth_account_id@,
            ) == Some(k as int),
            None => first_bound_api_key(
                accounts@,
                projection_binds(dir@, opt_ref(current_account_id), codex_home@, homes@),
                oauth_account_id@,
            ) is None,
        },
{
    let ghost binds = projection_binds(dir@, opt_ref(current_account_id), codex_home@, homes@);
    let ghost own: Seq<Option<Seq<char>>> = if dir@ == codex_home@ {
        seq![opt_ref(current_account_id)]
    } else {
        Seq::empty()
    };
    let at_home = str_eq(dir, codex_home);
    proof {
        if at_home {
            assert(own.drop_last() =~= Seq::<Option<Seq<char>>>::empty());
            assert(own.last() == opt_ref(current_account_id));
            assert(binds.take(own.len() as int) =~= own);
            assert(first_bound_api_key(accounts@, own.drop_last(), oauth_account_id@) is None);
            assert(first_bound_api_key(accounts@, own, oauth_account_id@) == bound_api_key_account(
                accounts@,
                opt_ref(current_account_id),
                oauth_account_id@,
            ));
        } else {
            assert(own =~= Seq::<Option<Seq<char>>>::empty());
        }
    }
    if at_home {
        match bound_api_key_account_index(accounts, current_account_id, oauth_account_id) {
            Some(k) => {
                proof {
                    lemma_first_bound_prefix(accounts@, binds, oauth_account_id@, own.len() as int);
                }
                return Some(k);
            },
            None => {},
        }
    }
    assert(first_bound_api_key(accounts@, own, oauth_account_id@) is None);
    assert(own + home_binds_at(homes@.take(0), dir@) =~= own);
    let mut i: usize = 0;
    while i < homes.len()
        invariant
            i <= homes.len(),
            binds == own + home_binds_at(homes@, dir@),
            binds == projection_binds(dir@, opt_ref(current_account_id), codex_home@, homes@),
            first_bound_api_key(accounts@, own + home_binds_at(homes@.take(i as int), dir@), oauth_account_id@) is None,
        decreases homes.len() - i,
    {
        let home = &homes[i];
        let ghost taken = homes@.take(i as int + 1);
        assert(taken.drop_last() =~= homes@.take(i as int));
        assert(taken.last() == home);
        let ghost before = own + home_binds_at(homes@.take(i as int), dir@);
        if str_eq(home.dir.as_str(), dir) {
            let bind = match &home.bind_account_id {
                Some(b) => Some(b.as_str()),
                None => None,
            };
            assert(opt_ref(bind) == opt_str(home.bind_account_id));
            let ghost after = own + home_binds_at(taken, dir@);
            assert(after =~= before.push(opt_str(home.bind_account_id)));
            assert(after.drop_last() =~= before);
            assert(after.last() == opt_str(home.bind_account_id));
            match bound_api_key_account_index(accounts, bind, oauth_account_id) {
                Some(k) => {
                    proof {
                        lemma_home_binds_prefix(homes@, dir@, i as int + 1);
                        let hb = home_binds_at(homes@, dir@);
                        let ht = home_binds_at(taken, dir@);
                        assert(hb.take(ht.len() as int) =~= ht);
                        assert(binds.take(after.len() as int) =~= after);
                        assert(first_bound_api_key(accounts@, after, oauth_account_id@) == Some(k as int));
                        lemma_first_bound_prefix(accounts@, binds, oauth_account_id@, after.len() as int);
                    }
                    return Some(k);
                },
                None => {},
            }
        } else {
            assert(own + home_binds_at(taken, dir@) =~= before);
        }
        i += 1;
    }
    assert(homes@.take(homes.len() as int) =~= homes@);
    None
}

/// The bound ids of a prefix of the homes are a prefix of theirs.
proof fn lemma_home_binds_prefix(homes: Seq<CodexHomeBinding>, dir: Seq<char>, n: int)
    requires
        0 <= n <= homes.len(),
    ensures
        home_binds_at(homes.take(n), dir).len() <= home_binds_at(homes, dir).len(),
        home_binds_at(homes, dir).take(home_binds_at(homes.take(n), dir).len() as int) =~= home_binds_at(
            homes.take(n),
            dir,
        ),
    decreases homes.len(),
{
    if n < homes.len() {
        assert(homes.drop_last().take(n) =~= homes.take(n));
        lemma_home_binds_prefix(homes.drop_last(), dir, n);
    } else {
        assert(homes.take(n) =~= homes);
    }
}

/// A bound account found in a prefix of the bound ids is the one found in
/// the whole list.
proof fn lemma_first_bound_prefix(accounts: Seq<CodexAccount>, binds: Seq<Option<Seq<char>>>, oauth_id: Seq<char>, n: int)
    requires
        0 <= n <= binds.len(),
        first_bound_api_key(accounts, binds.take(n), oauth_id) is Some,
    ensures
        first_bound_api_key(accounts, binds, oauth_id) == first_bound_api_key(accounts, binds.take(n), oauth_id),
    decreases binds.len(),
{
    if n < binds.len() {
        assert(binds.drop_last().take(n) =~= binds.take(n));
        lemma_first_bound_prefix(accounts, binds.drop_last(), oauth_id, n);
    } else {
        assert(binds.take(n) =~= binds);
    }
}

/// Why an API key account cannot be bound to the OAuth account of id
/// `bound_oauth_account_id`, whose stored account is `loaded`; none when it
/// can.
pub open spec fn binding_refusal(api_key_account: CodexAccount, bound_oauth_account_id: Seq<char>, loaded: Option<
    CodexAccount,
>) -> Option<Seq<char>> {
    if api_key_account.auth_mode != CodexAuthMode::Apikey {
        Some("仅 API Key 账号支持绑定 OAuth 账号"@)
    } else {
        match non_blank(bound_oauth_account_id) {
            None => Some("请选择要绑定的 OAuth 账号"@),
            Some(id) => if id == api_key_account.id@ {
                Some("API Key 账号不能绑定自身"@)
            } else {
                match loaded {
                    None => Some("绑定的 OAuth 账号不存在: "@ + id),
                    Some(a) => if a.auth_mode == CodexAuthMode::Apikey {
                        Some("只能绑定 OAuth 账号，不能绑定 API Key 账号"@)
                    } else if normalized_opt(opt_str(a.tokens.refresh_token)) is None {
                        Some("只能绑定带 refresh_token 的 OAuth 账号"@)
                    } else {
                        None
                    },
                }
            },
        }
    }
}

/// `validate_api_key_bound_oauth_account`, given the stored account of the
/// trimmed id `bound_oauth_account_id` (`loaded`; none when there is none):
/// that OAuth account when the API key account may be bound to it, else why
/// not.
pub fn validate_api_key_bound_oauth_account(
    api_key_account: &CodexAccount,
    bound_oauth_account_id: &str,
    loaded: Option<CodexAccount>,
) -> (r: Result<CodexAccount, String>)
    ensures
        match binding_refusal(*api_key_account, bound_oauth_account_id@, loaded) {
            Some(m) => r matches Err(e) && e@ == m,
            None => r == Ok::<CodexAccount, String>(loaded->0),
        },
{
    if !api_key_account.is_api_key_auth() {
        return Err("仅 API Key 账号支持绑定 OAuth 账号".to_string());
    }
    let bound_id = match normalize_optional_ref(Some(bound_oauth_account_id)) {
        Some(id) => id,
        None => {
            return Err("请选择要绑定的 OAuth 账号".to_string());
        },
    };
    if str_eq(bound_id.as_str(), api_key_account.id.as_str()) {
        return Err("API Key 账号不能绑定自身".to_string());
    }
    let oauth_account = match loaded {
        Some(a) => a,
        None => {
            return Err(crate::text::concat("绑定的 OAuth 账号不存在: ", bound_id.as_str()));
        },
    };
    if oauth_account.is_api_key_auth() {
        return Err("只能绑定 OAuth 账号，不能绑定 API Key 账号".to_string());
    }
    if !account_has_refresh_token(&oauth_account) {
        return Err("只能绑定带 refresh_token 的 OAuth 账号".to_string());
    }
    Ok(oauth_account)
}

// ---------------------------------------------------------------------------
// The marker of a managed Codex home
// ---------------------------------------------------------------------------

/// The marker Cockpit leaves in a Codex home it writes an account to: the
/// account, its token generation and when it was written.
#[derive(Debug)]
pub struct CodexManagedAuthProjection {
    pub version: u32,
    pub writer: String,
    pub account_id: String,
    pub email: String,
    pub token_generation: u64,
    pub written_at: i64,
}

/// `build_managed_projection` at time `now`.
pub fn build_managed_projection(account: &CodexAccount, now: i64) -> (r: CodexManagedAuthProjection)
    ensures
        r.version == 1,
        r.writer@ == "cockpit"@,
        r.account_id@ == account.id@,
        r.email@ == account.email@,
        r.token_generation == account.token_generation,
        r.written_at == now,
{
    CodexManagedAuthProjection {
        version: 1,
        writer: "cockpit".to_string(),
        account_id: account.id.clone(),
        email: account.email.clone(),
        token_generation: account.token_generation,
        written_at: now,
    }
}

/// The check of a managed-projection marker read from a home: only one that
/// Cockpit wrote counts.
pub fn accept_managed_projection(marker: Option<CodexManagedAuthProjection>) -> (r: Option<CodexManagedAuthProjection>)
    ensures
        r == (match marker {
            Some(m) => if m.writer@ == "cockpit"@ {
                Some(m)
            } else {
                None
            },
            None => None,
        }),
{
    match marker {
        Some(m) => {
            if str_eq(m.writer.as_str(), "cockpit") {
                Some(m)
            } else {
                None
            }
        },
        None => None,
    }
}

/// Why `sync_managed_projection_from_auth_dir` refuses to read a managed
/// home back into the store of `account_id`, given the home's marker, the
/// stored account and the login the home holds; none when it reads it.
/// An API key account is given back unchanged before the generation and
/// the login are looked at.
pub open spec fn projection_sync_refusal(
    account_id: Seq<char>,
    marker: Option<CodexManagedAuthProjection>,
    loaded: Option<CodexAccount>,
    snapshot: Option<LocalCodexOAuthSnapshot>,
) -> Option<Seq<char>> {
    match marker {
        None => Some("目标目录不是 Cockpit 受管 Codex 投影，已拒绝反向同步"@),
        Some(m) => if m.account_id@ != account_id {
            Some("受管投影账号不匹配: expected="@ + account_id + ", actual="@ + m.account_id@)
        } else {
            match loaded {
                None => Some("账号不存在: "@ + account_id),
                Some(a) => if a.auth_mode == CodexAuthMode::Apikey {
                    None
                } else if a.token_generation != m.token_generation {
                    Some(
                        "受管投影版本已过期，跳过反向同步: account_id="@ + account_id + ", store_generation="@
                            + crate::text::nat_digits(a.token_generation as nat) + ", projection_generation="@
                            + crate::text::nat_digits(m.token_generation as nat),
                    )
                } else {
                    match snapshot {
                        None => Some("受管投影缺少可同步的 OAuth Token"@),
                        Some(s) => if !snapshot_matches(a, s) {
                            Some("受管投影 Token 与账号不匹配，已拒绝反向同步"@)
                        } else {
                            None
                        },
                    }
                },
            }
        },
    }
}

/// The decisions of `sync_managed_projection_from_auth_dir` at time `now`,
/// given the home's accepted marker, the stored account of `account_id` and
/// the OAuth login the home holds: the account read back from the home, and
/// whether it changed (then it is saved and written through again). A
/// marker of another account, a stale token generation or a login of
/// another account is refused; an API key account comes back as it is.
pub fn sync_managed_projection_from_auth_dir(
    account_id: &str,
    marker: Option<&CodexManagedAuthProjection>,
    loaded: Option<CodexAccount>,
    snapshot: Option<&LocalCodexOAuthSnapshot>,
    now: i64,
) -> (r: Result<(CodexAccount, bool), String>)
    ensures
        match projection_sync_refusal(
            account_id@,
            match marker {
                Some(m) => Some(*m),
                None => None,
            },
            loaded,
            match snapshot {
                Some(s) => Some(*s),
                None => None,
            },
        ) {
            Some(m) => r matches Err(e) && e@ == m,
            None => r matches Ok((b, changed)) && if (loaded->0).auth_mode == CodexAuthMode::Apikey {
                b == loaded->0 && !changed
            } else {
                snapshot_applied(loaded->0, b, *(snapshot->0), now, changed)
            },
        },
{
    let m = match marker {
        Some(m) => m,
        None => {
            return Err("目标目录不是 Cockpit 受管 Codex 投影，已拒绝反向同步".to_string());
        },
    };
    if !str_eq(m.account_id.as_str(), account_id) {
        let a = crate::text::concat("受管投影账号不匹配: expected=", account_id);
        let b = crate::text::concat(a.as_str(), ", actual=");
        return Err(crate::text::concat(b.as_str(), m.account_id.as_str()));
    }
    let mut account = match loaded {
        Some(a) => a,
        None => {
            return Err(crate::text::concat("账号不存在: ", account_id));
        },
    };
    if account.is_api_key_auth() {
        return Ok((account, false));
    }
    if account.token_generation != m.token_generation {
        let a = crate::text::concat("受管投影版本已过期，跳过反向同步: account_id=", account_id);
        let b = crate::text::concat(a.as_str(), ", store_generation=");
        let c = crate::text::concat(b.as_str(), crate::text::u64_text(account.token_generation).as_str());
        let d = crate::text::concat(c.as_str(), ", projection_generation=");
        return Err(crate::text::concat(d.as_str(), crate::text::u64_text(m.token_generation).as_str()));
    }
    let s = match snapshot {
        Some(s) => s,
        None => {
            return Err("受管投影缺少可同步的 OAuth Token".to_string());
        },
    };
    if !local_oauth_snapshot_matches_account(s, &account) {
        return Err("受管投影 Token 与账号不匹配，已拒绝反向同步".to_string());
    }
    let changed = apply_local_oauth_snapshot(&mut account, s, now);
    Ok((account, changed))
}

// ---------------------------------------------------------------------------
// Writing an API key account bound to an OAuth login
// ---------------------------------------------------------------------------

/// What is written for an API key account bound to an OAuth account.
#[derive(Debug, Clone, Copy, PartialEq, Eq, Structural)]
pub enum ApiKeyBundleWrite {
    /// The API key account's own bundle: the bound login has no id token.
    ApiKeyOnly,
    /// The OAuth account's bundle, with the API key account's provider set
    /// in `config.toml`.
    OAuthWithProviderOverride,
}

/// The checks and choice for writing an API key account with the OAuth
/// account bound to it:
/// the pair must be an API key account and the OAuth account it is bound
/// to; an OAuth login without an id token cannot be written, so the API
/// key account's own bundle is.
pub fn api_key_bundle_with_oauth(api_key_account: &CodexAccount, oauth_account: &CodexAccount) -> (r: Result<
    ApiKeyBundleWrite,
    String,
>)
    ensures
        if api_key_account.auth_mode != CodexAuthMode::Apikey {
            r matches Err(e) && e@ == "仅 API Key 账号支持 OAuth 绑定写入"@
        } else if oauth_account.auth_mode == CodexAuthMode::Apikey {
            r matches Err(e) && e@ == "API Key 账号绑定目标必须是 OAuth 账号"@
        } else if opt_str(api_key_account.bound_oauth_account_id) != Some(oauth_account.id@) {
            r matches Err(e) && e@ == "API Key 账号绑定的 OAuth 账号不匹配"@
        } else if crate::text::trim(oauth_account.tokens.id_token@).len() == 0 {
            r == Ok::<ApiKeyBundleWrite, String>(ApiKeyBundleWrite::ApiKeyOnly)
        } else {
            r == Ok::<ApiKeyBundleWrite, String>(ApiKeyBundleWrite::OAuthWithProviderOverride)
        },
{
    if !api_key_account.is_api_key_auth() {
        return Err("仅 API Key 账号支持 OAuth 绑定写入".to_string());
    }
    if oauth_account.is_api_key_auth() {
        return Err("API Key 账号绑定目标必须是 OAuth 账号".to_string());
    }
    let matches = match &api_key_account.bound_oauth_account_id {
        Some(id) => str_eq(id.as_str(), oauth_account.id.as_str()),
        None => false,
    };
    if !matches {
        return Err("API Key 账号绑定的 OAuth 账号不匹配".to_string());
    }
    if crate::text::trimmed(oauth_account.tokens.id_token.as_str()).len() == 0 {
        Ok(ApiKeyBundleWrite::ApiKeyOnly)
    } else {
        Ok(ApiKeyBundleWrite::OAuthWithProviderOverride)
    }
}

/// What to write to a home for an account,
/// after the binding of an API key account is checked.
#[derive(Debug)]
pub enum AccountBundlePlan {
    /// The account's own bundle.
    Own,
    /// The bound OAuth account's bundle, with the API key account's provider
    /// set in `config.toml`.
    WithBoundOAuth(CodexAccount),
}

/// What to write to a home for an account, given the stored account of
/// the API key account's trimmed bound OAuth id (`bound_loaded`): an OAuth
/// account, or an API key account bound to nothing, writes its own bundle;
/// an API key account bound to an OAuth account needs a valid binding, and
/// then writes its own bundle when that login has no id token, else the
/// login's bundle with its own provider.
pub fn account_bundle_plan(account: &CodexAccount, bound_loaded: Option<CodexAccount>) -> (r: Result<
    AccountBundlePlan,
    String,
>)
    ensures
        account.auth_mode != CodexAuthMode::Apikey ==> r matches Ok(AccountBundlePlan::Own),
        account.auth_mode == CodexAuthMode::Apikey ==> match normalized_opt(opt_str(account.bound_oauth_account_id)) {
            None => r matches Ok(AccountBundlePlan::Own),
            Some(id) => match binding_refusal(*account, id, bound_loaded) {
                Some(m) => r matches Err(e) && e@ == m,
                None => if opt_str(account.bound_oauth_account_id) != Some((bound_loaded->0).id@) {
                    r matches Err(e) && e@ == "API Key 账号绑定的 OAuth 账号不匹配"@
                } else if crate::text::trim((bound_loaded->0).tokens.id_token@).len() == 0 {
                    r matches Ok(AccountBundlePlan::Own)
                } else {
                    r == Ok::<AccountBundlePlan, String>(AccountBundlePlan::WithBoundOAuth(bound_loaded->0))
                },
            },
        },
{
    if !account.is_api_key_auth() {
        return Ok(AccountBundlePlan::Own);
    }
    let bound_id = match &account.bound_oauth_account_id {
        Some(id) => normalize_optional_ref(Some(id.as_str())),
        None => None,
    };
    let bound_id = match bound_id {
        Some(id) => id,
        None => {
            return Ok(AccountBundlePlan::Own);
        },
    };
    proof {
        crate::text::lemma_trim_idempotent(opt_str(account.bound_oauth_account_id)->0);
    }
    let oauth = validate_api_key_bound_oauth_account(account, bound_id.as_str(), bound_loaded)?;
    match api_key_bundle_with_oauth(account, &oauth)? {
        ApiKeyBundleWrite::ApiKeyOnly => Ok(AccountBundlePlan::Own),
        ApiKeyBundleWrite::OAuthWithProviderOverride => Ok(AccountBundlePlan::WithBoundOAuth(oauth)),
    }
}

/// The bookkeeping of a switch at time `now`, once the
/// account's bundle is written to Codex's home: the account becomes the
/// index's current one and was last used now. Used by
/// `activate_saved_account`.
pub fn activate_saved_account(index: &mut CodexAccountIndex, account: CodexAccount, now: i64) -> (r: CodexAccount)
    ensures
        opt_str(final(index).current_account_id) == Some(account.id@),
        final(index).accounts == old(index).accounts,
        r == (CodexAccount { last_used: now, ..account }),
{
    index.current_account_id = Some(account.id.clone());
    let mut updated = account;
    updated.update_last_used(now);
    updated
}

/// `update_api_key_bound_oauth_account`'s decisions, given the stored
/// account of `account_id` and the stored account of the trimmed bound id
/// (`bound_loaded`): only an API key account is bound; an id that is
/// absent or blank unbinds it; any other must pass
/// `validate_api_key_bound_oauth_account`. The account comes back with the
/// trimmed bound id, to be saved.
pub fn update_api_key_bound_oauth_account(
    account_id: &str,
    loaded: Option<CodexAccount>,
    bound_oauth_account_id: Option<String>,
    bound_loaded: Option<CodexAccount>,
) -> (r: Result<CodexAccount, String>)
    ensures
        match loaded {
            None => r matches Err(e) && e@ == missing_account(account_id@),
            Some(a) => if a.auth_mode != CodexAuthMode::Apikey {
                r matches Err(e) && e@ == "仅 API Key 账号支持绑定 OAuth 账号"@
            } else {
                match normalized_opt(opt_str(bound_oauth_account_id)) {
                    None => r matches Ok(b) && b == (CodexAccount { bound_oauth_account_id: b.bound_oauth_account_id, ..a })
                        && b.bound_oauth_account_id is None,
                    Some(id) => match binding_refusal(a, id, bound_loaded) {
                        Some(m) => r matches Err(e) && e@ == m,
                        None => r matches Ok(b) && b == (CodexAccount {
                            bound_oauth_account_id: b.bound_oauth_account_id,
                            ..a
                        }) && opt_str(b.bound_oauth_account_id) == Some(id),
                    },
                }
            },
        },
{
    let mut account = match loaded {
        Some(a) => a,
        None => {
            return Err(crate::text::concat("账号不存在: ", account_id));
        },
    };
    if !account.is_api_key_auth() {
        return Err("仅 API Key 账号支持绑定 OAuth 账号".to_string());
    }
    let bound_id = match &bound_oauth_account_id {
        Some(id) => normalize_optional_ref(Some(id.as_str())),
        None => None,
    };
    match &bound_id {
        Some(id) => {
            proof {
                crate::text::lemma_trim_idempotent(opt_str(bound_oauth_account_id)->0);
            }
            let _ = validate_api_key_bound_oauth_account(&account, id.as_str(), bound_loaded)?;
        },
        None => {},
    }
    account.bound_oauth_account_id = bound_id;
    Ok(account)
}

} // verus!
