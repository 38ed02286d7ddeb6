//! CodeBuddy account records as the application stores and shows them.
use vstd::prelude::*;
use crate::strings::{opt_str, strs};

verus! {

broadcast use vstd::string::group_string_axioms;

/// What the account index keeps of a CodeBuddy account.
#[derive(Debug)]
pub struct CodebuddyAccountSummary {
    pub id: String,
    pub email: String,
    pub tags: Option<Vec<String>>,
    pub plan_type: Option<String>,
    pub created_at: i64,
    pub last_used: i64,
}

/// The index of CodeBuddy accounts.
#[derive(Debug)]
pub struct CodebuddyAccountIndex {
    pub version: String,
    pub accounts: Vec<CodebuddyAccountSummary>,
}

impl CodebuddyAccountIndex {
    /// An empty index of the current format, version `1.0`.
    pub fn new() -> (r: CodebuddyAccountIndex)
        ensures
            r.version@ == "1.0"@,
            r.accounts@.len() == 0,
    {
        CodebuddyAccountIndex { version: "1.0".to_string(), accounts: Vec::new() }
    }
}

/// A CodeBuddy account, with the fields its summary is made of.
#[derive(Debug)]
pub struct CodebuddyAccount {
    pub id: String,
    pub email: String,
    pub tags: Option<Vec<String>>,
    pub plan_type: Option<String>,
    pub created_at: i64,
    pub last_used: i64,
}

/// The content of optional tags.
pub open spec fn opt_tags(t: Option<Vec<String>>) -> Option<Seq<Seq<char>>> {
    match t {
        Some(v) => Some(strs(v@)),
        None => None,
    }
}

impl CodebuddyAccount {
    /// `summary`: what the index keeps of the account.
    pub fn summary(&self) -> (r: CodebuddyAccountSummary)
        ensures
            r.id@ == self.id@,
            r.email@ == self.email@,
            opt_tags(r.tags) == opt_tags(self.tags),
            opt_str(r.plan_type) == opt_str(self.plan_type),
            r.created_at == self.created_at,
            r.last_used == self.last_used,
    {
        CodebuddyAccountSummary {
            id: self.id.clone(),
            email: self.email.clone(),
            tags: match &self.tags {
                Some(t) => Some(crate::strings::clone_strings(t)),
                None => None,
            },
            plan_type: crate::strings::clone_opt_string(&self.plan_type),
            created_at: self.created_at,
            last_used: self.last_used,
        }
    }
}

/// How a device login was started.
#[derive(Debug)]
pub struct CodebuddyOAuthStartResponse {
    pub login_id: String,
    pub verification_uri: String,
    pub verification_uri_complete: Option<String>,
    pub expires_in: u64,
    pub interval_seconds: u64,
}

/// The check-in state of an account.
#[derive(Debug)]
pub struct CodebuddyCheckinStatusResponse {
    pub today_checked_in: bool,
    pub active: bool,
    pub streak_days: i64,
    pub daily_credit: i64,
    pub today_credit: Option<i64>,
    pub next_streak_day: Option<i64>,
    pub is_streak_day: Option<bool>,
    pub checkin_dates: Option<Vec<String>>,
}

} // verus!
