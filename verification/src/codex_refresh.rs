//! Keeping a managed Codex login fresh. A refresh is decided in two steps:
//! the first reads the stored account (after the caller has taken in the
//! newer tokens of the Codex homes it is written to) and says whether to
//! exchange its refresh token; the second takes what the exchange returned.
//! The caller loads, saves and talks to the token service in between.
use vstd::prelude::*;
use crate::codex::{
    clear_stale_missing_refresh_token_reauth, format_refresh_error_for_user, is_managed_auth_refresh_due,
    is_reauth_required_refresh_error, mark_account_requires_reauth, mark_token_chain_updated_at, missing_account,
    normalized_opt, refresh_error_explanation, refresh_error_kind, CodexAccount, CodexAuthMode, CodexRefreshErrorKind,
    CodexTokens, CODEX_PROACTIVE_REFRESH_INTERVAL_SECONDS,
};
use crate::codex_compat::{identity_synced, sync_identity_from_tokens};
use crate::strings::opt_str;
use crate::text::{contains, trim};

verus! {

broadcast use vstd::string::group_string_axioms;

/// Which refresh runs: before the account is used (when its access token
/// has expired), forced, or the periodic keep-alive (when its token has
/// expired or is eight days old).
#[derive(Clone, Copy, PartialEq, Eq, Structural, Debug)]
pub enum ManagedRefreshMode {
    Prepare,
    Force,
    Keepalive,
}

/// What a refresh does after reading the stored account.
#[derive(Debug)]
pub enum ManagedRefreshAction {
    /// Hand the account back as it is; save it first when `save` (a stale
    /// "missing refresh token" mark was cleared).
    Done { account: CodexAccount, save: bool },
    /// Exchange `refresh_token` for new tokens, then call
    /// `managed_refresh_finished`; save the account first when `save`.
    Refresh { account: CodexAccount, refresh_token: String, save: bool },
}

/// The account with a stale "missing refresh token" mark cleared.
pub open spec fn stale_mark_cleared(a: CodexAccount) -> CodexAccount {
    if a.requires_reauth && match opt_str(a.reauth_reason) {
        Some(r) => contains(r, "缺少 refresh_token"@),
        None => false,
    } {
        CodexAccount { requires_reauth: false, reauth_reason: None, ..a }
    } else {
        a
    }
}

/// Whether the refresh of `mode` is due for an OAuth account that needs no
/// new login.
pub open spec fn refresh_due(a: CodexAccount, mode: ManagedRefreshMode, access_token_expired: bool, now: i64) -> bool {
    match mode {
        ManagedRefreshMode::Prepare => access_token_expired,
        ManagedRefreshMode::Force => true,
        ManagedRefreshMode::Keepalive => normalized_opt(opt_str(a.tokens.refresh_token)) is Some && (
        access_token_expired || match a.token_updated_at {
            Some(t) => t <= now - CODEX_PROACTIVE_REFRESH_INTERVAL_SECONDS,
            None => true,
        }),
    }
}

/// A managed refresh, up to the token exchange, on the account loaded for `account_id` (none when
/// it is not stored), whose access token has expired or not: an API key
/// account is handed back; a stale "missing refresh token" mark is cleared;
/// an account that needs a new login is refused with its reason; when the
/// refresh is not due, or the account has no refresh token (it then keeps
/// working with its access token), it is handed back; else its refresh
/// token is exchanged.
pub fn managed_refresh_start(
    account_id: &str,
    loaded: Option<CodexAccount>,
    mode: ManagedRefreshMode,
    access_token_expired: bool,
    now: i64,
) -> (r: Result<ManagedRefreshAction, String>)
    ensures
        match loaded {
            None => r matches Err(m) && m@ == missing_account(account_id@),
            Some(a) => if a.auth_mode == CodexAuthMode::Apikey {
                r matches Ok(ManagedRefreshAction::Done { account, save }) && account == a && !save
            } else {
                let c = stale_mark_cleared(a);
                let cleared = c != a;
                if c.requires_reauth {
                    r matches Err(m) && m@ == match opt_str(c.reauth_reason) {
                        Some(reason) => reason,
                        None => "账号需要重新登录"@,
                    }
                } else if refresh_due(c, mode, access_token_expired, now) && trim(
                    match opt_str(c.tokens.refresh_token) {
                        Some(t) => t,
                        None => Seq::empty(),
                    },
                ).len() != 0 {
                    r matches Ok(ManagedRefreshAction::Refresh { account, refresh_token, save }) && account == c
                        && Some(refresh_token@) == opt_str(c.tokens.refresh_token) && save == cleared
                } else {
                    r matches Ok(ManagedRefreshAction::Done { account, save }) && account == c && save == cleared
                }
            },
        },
{
    let mut account = match loaded {
        Some(a) => a,
        None => {
            return Err(crate::text::concat("账号不存在: ", account_id));
        },
    };
    if account.is_api_key_auth() {
        return Ok(ManagedRefreshAction::Done { account, save: false });
    }
    let ghost before = account;
    let save = clear_stale_missing_refresh_token_reauth(&mut account);
    proof {
        assert(account == stale_mark_cleared(before));
        if save {
            assert(account.requires_reauth != before.requires_reauth);
        }
    }
    if account.requires_reauth {
        return Err(
            match &account.reauth_reason {
                Some(reason) => reason.clone(),
                None => "账号需要重新登录".to_string(),
            },
        );
    }
    let due = match mode {
        ManagedRefreshMode::Prepare => access_token_expired,
        ManagedRefreshMode::Force => true,
        ManagedRefreshMode::Keepalive => is_managed_auth_refresh_due(&account, access_token_expired, now),
    };
    if !due {
        return Ok(ManagedRefreshAction::Done { account, save });
    }
    let token = match &account.tokens.refresh_token {
        Some(t) => {
            if crate::text::trimmed(t.as_str()).len() > 0 {
                Some(t.clone())
            } else {
                None
            }
        },
        None => None,
    };
    match token {
        Some(refresh_token) => Ok(ManagedRefreshAction::Refresh { account, refresh_token, save }),
        None => Ok(ManagedRefreshAction::Done { account, save }),
    }
}

/// Why a token exchange failed: the message for the user, and the account
/// marked as needing a new login (to be saved) when only that helps.
#[derive(Debug)]
pub struct ManagedRefreshFailure {
    pub message: String,
    pub reauth_account: Option<CodexAccount>,
}

/// What a managed refresh makes of the token exchange's outcome at
/// time `now`: with new tokens, the account holding them, its identity
/// read from them, one more token generation stamped `now`, managed, and
/// no new login pending (to be saved and written to its homes); with an
/// error, the user's message, and the account marked as needing a new
/// login with that message when the refresh token can no longer be used.
pub fn managed_refresh_finished(account: CodexAccount, outcome: Result<CodexTokens, String>, now: i64) -> (r: Result<
    CodexAccount,
    ManagedRefreshFailure,
>)
    ensures
        match outcome {
            Ok(t) => r matches Ok(b) && {
                &&& identity_synced(
                    CodexAccount { tokens: t, ..account },
                    CodexAccount {
                        token_generation: account.token_generation,
                        token_updated_at: account.token_updated_at,
                        token_source_mode: account.token_source_mode,
                        requires_reauth: account.requires_reauth,
                        reauth_reason: account.reauth_reason,
                        ..b
                    },
                )
                &&& b.token_generation == if account.token_generation < u64::MAX {
                    (account.token_generation + 1) as u64
                } else {
                    u64::MAX
                }
                &&& b.token_updated_at == Some(now)
                &&& b.token_source_mode@ == "managed"@
                &&& !b.requires_reauth
                &&& b.reauth_reason is None
            },
            Err(raw) => r matches Err(f) && {
                let message = refresh_error_explanation(refresh_error_kind(raw@)) + raw@;
                let reauth = match refresh_error_kind(raw@) {
                    CodexRefreshErrorKind::RefreshTokenReused => true,
                    CodexRefreshErrorKind::RefreshTokenExpired => true,
                    CodexRefreshErrorKind::RefreshTokenInvalidated => true,
                    CodexRefreshErrorKind::InvalidGrant => true,
                    _ => false,
                };
                &&& f.message@ == message
                &&& reauth ==> (f.reauth_account matches Some(b) && b.requires_reauth && opt_str(b.reauth_reason)
                    == Some(message) && b == (CodexAccount {
                    requires_reauth: b.requires_reauth,
                    reauth_reason: b.reauth_reason,
                    ..account
                }))
                &&& !reauth ==> f.reauth_account is None
            },
        },
{
    match outcome {
        Ok(tokens) => {
            let mut b = account;
            b.tokens = tokens;
            let ghost with_tokens = b;
            sync_identity_from_tokens(&mut b);
            let ghost synced = b;
            mark_token_chain_updated_at(&mut b, now);
            assert(synced == (CodexAccount {
                token_generation: with_tokens.token_generation,
                token_updated_at: with_tokens.token_updated_at,
                token_source_mode: with_tokens.token_source_mode,
                requires_reauth: with_tokens.requires_reauth,
                reauth_reason: with_tokens.reauth_reason,
                ..b
            }));
            Ok(b)
        },
        Err(raw) => {
            let message = format_refresh_error_for_user(raw.as_str());
            if is_reauth_required_refresh_error(raw.as_str()) {
                let mut b = account;
                mark_account_requires_reauth(&mut b, message.as_str());
                Err(ManagedRefreshFailure { message, reauth_account: Some(b) })
            } else {
                Err(ManagedRefreshFailure { message, reauth_account: None })
            }
        },
    }
}

} // verus!
