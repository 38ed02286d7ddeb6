//! The token keeper's decisions: when a stored token is due for refresh,
//! and the back-off that spaces attempts after a failure.
use vstd::prelude::*;
use crate::keyed::{keys_unique, to_map};

verus! {

broadcast use vstd::string::group_string_axioms;

/// How long before expiry a token is refreshed, in seconds.
pub const TOKEN_REFRESH_LEAD_SECONDS: i64 = 300;

/// How long before expiry a token is refreshed, in milliseconds.
pub const TOKEN_REFRESH_LEAD_MILLISECONDS: i64 = 300000;

/// How long to wait after a failed refresh, in seconds.
pub const REFRESH_FAILURE_BACKOFF_SECONDS: i64 = 900;

/// How long between two strict login checks of a Trae account, in seconds.
pub const TRAE_STRICT_CHECK_INTERVAL_SECONDS: i64 = 600;

/// `expires_at_seconds_due` at time `now` (seconds): due when the expiry is
/// unknown or within the lead time.
pub fn expires_at_seconds_due(expires_at: Option<i64>, now: i64) -> (r: bool)
    ensures
        r == match expires_at {
            Some(v) => v <= now + TOKEN_REFRESH_LEAD_SECONDS,
            None => true,
        },
{
    match expires_at {
        Some(v) => (v as i128) <= (now as i128) + 300,
        None => true,
    }
}

/// `expires_at_milliseconds_due` at time `now_ms` (milliseconds).
pub fn expires_at_milliseconds_due(expires_at: Option<i64>, now_ms: i64) -> (r: bool)
    ensures
        r == match expires_at {
            Some(v) => v <= now_ms + TOKEN_REFRESH_LEAD_MILLISECONDS,
            None => true,
        },
{
    match expires_at {
        Some(v) => (v as i128) <= (now_ms as i128) + 300000,
        None => true,
    }
}

/// `jwt_token_expires_soon` at time `now`: a token whose `exp` claim cannot
/// be read counts as expiring.
pub fn jwt_token_expires_soon(token: &str, skew_seconds: i64, now: i64) -> (r: bool)
    ensures
        r == match crate::codex::jwt_exp(token@) {
            Some(exp) => exp <= now + skew_seconds,
            None => true,
        },
{
    match crate::codex::decode_jwt_exp(token) {
        Some(exp) => (exp as i128) <= (now as i128) + (skew_seconds as i128),
        None => true,
    }
}

/// The next time at which an attempt is allowed again, by key.
#[derive(Debug)]
pub struct AttemptSchedule {
    pub next_allowed: Vec<(String, i64)>,
}

impl AttemptSchedule {
    /// The schedule as a map from key to the earliest next attempt.
    pub open spec fn view_map(&self) -> Map<Seq<char>, i64> {
        to_map(self.next_allowed@)
    }

    /// No key is recorded twice.
    pub open spec fn well_formed(&self) -> bool {
        keys_unique(self.next_allowed@)
    }

    /// Nothing delayed yet.
    pub fn new() -> (r: AttemptSchedule)
        ensures
            r.well_formed(),
            r.view_map() == Map::<Seq<char>, i64>::empty(),
    {
        AttemptSchedule { next_allowed: Vec::new() }
    }

    /// Whether an attempt under the key may run at time `now`: allowed
    /// unless a later next attempt is recorded for the key.
    pub fn allow_attempt(&self, key: &str, now: i64) -> (r: bool)
        requires
            self.well_formed(),
        ensures
            r == (!self.view_map().dom().contains(key@) || self.view_map()[key@] <= now),
    {
        match crate::keyed::get_key(&self.next_allowed, key) {
            Some(next) => *next <= now,
            None => true,
        }
    }

    /// `clear_attempt_backoff`: forgets the key's delay.
    pub fn clear_attempt_backoff(&mut self, key: &str)
        requires
            old(self).well_formed(),
        ensures
            final(self).well_formed(),
            final(self).view_map() == old(self).view_map().remove(key@),
    {
        let _ = crate::keyed::remove_key(&mut self.next_allowed, key);
    }

    /// Records an attempt under the key at time `now`:
    /// the next attempt under the key waits `delay` seconds.
    pub fn delay_attempt(&mut self, key: &str, now: i64, delay: i64)
        requires
            old(self).well_formed(),
            i64::MIN <= now + delay <= i64::MAX,
        ensures
            final(self).well_formed(),
            final(self).view_map() == old(self).view_map().insert(key@, (now + delay) as i64),
    {
        crate::keyed::insert_key(&mut self.next_allowed, key.to_string(), now + delay);
    }
}

/// After a failure at `failed_at`, attempts under the key are refused until
/// the back-off has passed and allowed from then on; clearing the key allows
/// them at once.
pub proof fn law_backoff(schedule: Map<Seq<char>, i64>, key: Seq<char>, failed_at: i64, later: i64)
    requires
        i64::MIN <= failed_at + REFRESH_FAILURE_BACKOFF_SECONDS <= i64::MAX,
    ensures
        ({
            let after = schedule.insert(key, (failed_at + REFRESH_FAILURE_BACKOFF_SECONDS) as i64);
            (!after.dom().contains(key) || after[key] <= later) <==> later >= failed_at
                + REFRESH_FAILURE_BACKOFF_SECONDS
        }),
        ({
            let cleared = schedule.remove(key);
            !cleared.dom().contains(key) || cleared[key] <= later
        }),
{
}

} // verus!
