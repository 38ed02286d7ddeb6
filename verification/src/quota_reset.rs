//! Which models a wake-on-reset task runs for: the task's time gate, the
//! watched accounts it selects, and the quota resets it observes in them.
use vstd::prelude::*;
use crate::cron::{in_window_spec, is_in_time_window, parse_time_to_minutes, time_minutes};
use crate::scheduler::{reset_triggers, SchedulerState};
use crate::strings::{list_contains, strs};
use crate::text::{eq_ignore_case, eq_ignore_case_exec, str_eq};
use crate::wakeup::ScheduleConfigNormalized;

verus! {

broadcast use vstd::string::group_string_axioms;

/// A watched account's quota for one model: when it resets and the
/// percentage left.
#[derive(Debug)]
pub struct ModelQuota {
    pub name: String,
    pub reset_time: String,
    pub percentage: i32,
}

/// An account whose quotas wake-on-reset tasks watch.
#[derive(Debug)]
pub struct QuotaAccount {
    pub email: String,
    pub models: Vec<ModelQuota>,
}

// ---------------------------------------------------------------------------
// The time gate
// ---------------------------------------------------------------------------

/// Whether one of the fallback times is the current minute of the day.
pub open spec fn fallback_now(times: Seq<String>, current: int) -> bool {
    exists|k: int| 0 <= k < times.len() && time_minutes(#[trigger] times[k]@) == Some(current)
}

/// `handle_quota_reset_task`'s time gate at the current minute of the day:
/// a task with a time window looks at resets only inside the window or at
/// one of its fallback times.
pub fn quota_reset_window_open(schedule: &ScheduleConfigNormalized, current_minutes: i32) -> (r: bool)
    ensures
        r == (!schedule.time_window_enabled || in_window_spec(
            match schedule.time_window_start {
                Some(s) => Some(s@),
                None => None,
            },
            match schedule.time_window_end {
                Some(e) => Some(e@),
                None => None,
            },
            current_minutes as int,
        ) || fallback_now(schedule.fallback_times@, current_minutes as int)),
{
    if !schedule.time_window_enabled {
        return true;
    }
    let in_window = is_in_time_window(
        schedule.time_window_start.as_ref(),
        schedule.time_window_end.as_ref(),
        current_minutes,
    );
    if in_window {
        return true;
    }
    let mut k: usize = 0;
    while k < schedule.fallback_times.len()
        invariant
            k <= schedule.fallback_times@.len(),
            forall|j: int|
                0 <= j < k ==> time_minutes(#[trigger] schedule.fallback_times@[j]@) != Some(current_minutes as int),
        decreases schedule.fallback_times.len() - k,
    {
        match parse_time_to_minutes(schedule.fallback_times[k].as_str()) {
            Some(m) => {
                if m == current_minutes {
                    assert(time_minutes(schedule.fallback_times@[k as int]@) == Some(current_minutes as int));
                    return true;
                }
            },
            None => {},
        }
        k += 1;
    }
    false
}

// ---------------------------------------------------------------------------
// The selected accounts
// ---------------------------------------------------------------------------

/// The position of the first account with an email equal to `email` but for
/// ASCII case.
pub open spec fn first_email_index(accounts: Seq<QuotaAccount>, email: Seq<char>) -> Option<int>
    decreases accounts.len(),
{
    if accounts.len() == 0 {
        None
    } else {
        match first_email_index(accounts.drop_last(), email) {
            Some(i) => Some(i),
            None => if eq_ignore_case(accounts.last().email@, email) {
                Some(accounts.len() - 1)
            } else {
                None
            },
        }
    }
}

/// The positions of the accounts a task selects: for each selected email in
/// order, the first account with that email, when there is one.
pub open spec fn selected_positions(selected: Seq<String>, accounts: Seq<QuotaAccount>) -> Seq<int>
    decreases selected.len(),
{
    if selected.len() == 0 {
        Seq::empty()
    } else {
        let rest = selected_positions(selected.drop_last(), accounts);
        match first_email_index(accounts, selected.last()@) {
            Some(i) => rest.push(i),
            None => rest,
        }
    }
}

/// A first match found in a prefix of the accounts is the first match.
proof fn lemma_first_email_prefix(accounts: Seq<QuotaAccount>, email: Seq<char>, n: int)
    requires
        0 <= n <= accounts.len(),
        first_email_index(accounts.take(n), email) is Some,
    ensures
        first_email_index(accounts, email) == first_email_index(accounts.take(n), email),
    decreases accounts.len(),
{
    if n < accounts.len() {
        assert(accounts.drop_last().take(n) =~= accounts.take(n));
        lemma_first_email_prefix(accounts.drop_last(), email, n);
    } else {
        assert(accounts.take(n) =~= accounts);
    }
}

/// A found position lies among the accounts.
proof fn lemma_first_email_in_range(accounts: Seq<QuotaAccount>, email: Seq<char>)
    ensures
        first_email_index(accounts, email) matches Some(i) ==> 0 <= i < accounts.len(),
    decreases accounts.len(),
{
    if accounts.len() > 0 {
        lemma_first_email_in_range(accounts.drop_last(), email);
    }
}

/// The first account with email `email` (ignoring ASCII case).
fn find_quota_account(accounts: &Vec<QuotaAccount>, email: &str) -> (r: Option<usize>)
    ensures
        match r {
            Some(i) => first_email_index(accounts@, email@) == Some(i as int) && i < accounts@.len(),
            None => first_email_index(accounts@, email@) is None,
        },
{
    let mut i: usize = 0;
    while i < accounts.len()
        invariant
            i <= accounts@.len(),
            first_email_index(accounts@.take(i as int), email@) is None,
        decreases accounts.len() - i,
    {
        assert(accounts@.take(i as int + 1).drop_last() =~= accounts@.take(i as int));
        if eq_ignore_case_exec(accounts[i].email.as_str(), email) {
            proof {
                lemma_first_email_prefix(accounts@, email@, i as int + 1);
            }
            return Some(i);
        }
        i += 1;
    }
    assert(accounts@.take(accounts.len() as int) =~= accounts@);
    None
}

/// The positions of the watched accounts a task selects by email.
pub fn select_quota_accounts(selected: &Vec<String>, accounts: &Vec<QuotaAccount>) -> (r: Vec<usize>)
    ensures
        r@.map_values(|i: usize| i as int) == selected_positions(selected@, accounts@),
        forall|k: int| 0 <= k < r@.len() ==> r@[k] < accounts@.len(),
{
    let mut r: Vec<usize> = Vec::new();
    let mut k: usize = 0;
    while k < selected.len()
        invariant
            k <= selected@.len(),
            r@.map_values(|i: usize| i as int) == selected_positions(selected@.take(k as int), accounts@),
            forall|j: int| 0 <= j < r@.len() ==> r@[j] < accounts@.len(),
        decreases selected.len() - k,
    {
        let ghost before = r@;
        assert(selected@.take(k as int + 1).drop_last() =~= selected@.take(k as int));
        assert(selected@.take(k as int + 1).last() == selected@[k as int]);
        match find_quota_account(accounts, selected[k].as_str()) {
            Some(i) => {
                r.push(i);
                assert(r@.map_values(|i: usize| i as int) =~= before.map_values(|i: usize| i as int).push(i as int));
            },
            None => {},
        }
        k += 1;
    }
    assert(selected@.take(selected.len() as int) =~= selected@);
    r
}

// ---------------------------------------------------------------------------
// The resets observed
// ---------------------------------------------------------------------------

/// One observed reset: the model, the reset time and the percentage left.
pub type ResetObservation = (Seq<char>, Seq<char>, i32);

/// The position of an account's first quota for model `name`.
pub open spec fn first_quota_index(models: Seq<ModelQuota>, name: Seq<char>) -> Option<int>
    decreases models.len(),
{
    if models.len() == 0 {
        None
    } else {
        match first_quota_index(models.drop_last(), name) {
            Some(i) => Some(i),
            None => if models.last().name@ == name {
                Some(models.len() - 1)
            } else {
                None
            },
        }
    }
}

/// What one selected account shows of model `name`: its first quota for
/// it, when it has one.
pub open spec fn observation_of(account: QuotaAccount, name: Seq<char>) -> Seq<ResetObservation> {
    match first_quota_index(account.models@, name) {
        Some(q) => seq![(name, account.models@[q].reset_time@, account.models@[q].percentage)],
        None => Seq::empty(),
    }
}

/// What the selected accounts, in order, show of model `name`.
pub open spec fn model_observations(name: Seq<char>, positions: Seq<int>, accounts: Seq<QuotaAccount>) -> Seq<
    ResetObservation,
>
    decreases positions.len(),
{
    if positions.len() == 0 {
        Seq::empty()
    } else {
        model_observations(name, positions.drop_last(), accounts) + observation_of(accounts[positions.last()], name)
    }
}

/// Everything a task observes: for each selected model in order, what the
/// selected accounts show of it.
pub open spec fn reset_observations(models: Seq<String>, positions: Seq<int>, accounts: Seq<QuotaAccount>) -> Seq<
    ResetObservation,
>
    decreases models.len(),
{
    if models.len() == 0 {
        Seq::empty()
    } else {
        reset_observations(models.drop_last(), positions, accounts) + model_observations(
            models.last()@,
            positions,
            accounts,
        )
    }
}

/// The reset bookkeeping of a task (reset times, trigger moments, remaining
/// percentages per model) and the models triggered, in order, after the
/// observations are looked at one by one at time `now`.
pub open spec fn reset_fold(
    ts: Map<Seq<char>, Seq<char>>,
    at: Map<Seq<char>, i64>,
    rem: Map<Seq<char>, i32>,
    obs: Seq<ResetObservation>,
    now: i64,
) -> (Map<Seq<char>, Seq<char>>, Map<Seq<char>, i64>, Map<Seq<char>, i32>, Seq<Seq<char>>)
    decreases obs.len(),
{
    if obs.len() == 0 {
        (ts, at, rem, Seq::empty())
    } else {
        let (ts0, at0, rem0, fired) = reset_fold(ts, at, rem, obs.drop_last(), now);
        let o = obs.last();
        let t = reset_triggers(ts0, at0, o.0, o.1, o.2 as int, now as int);
        (
            if t { ts0.insert(o.0, o.1) } else { ts0 },
            if t { at0.insert(o.0, now) } else { at0 },
            rem0.insert(o.0, o.2),
            if t { fired.push(o.0) } else { fired },
        )
    }
}

/// The reset bookkeeping of a task in a scheduler state (empty when none).
pub open spec fn reset_maps(s: SchedulerState, task_id: Seq<char>) -> (
    Map<Seq<char>, Seq<char>>,
    Map<Seq<char>, i64>,
    Map<Seq<char>, i32>,
) {
    match s.reset_state_of(task_id) {
        Some(st) => (st.timestamps(), st.trigger_at(), st.remaining()),
        None => (Map::empty(), Map::empty(), Map::empty()),
    }
}

/// The first quota of an account for model `name`.
fn find_model_quota(models: &Vec<ModelQuota>, name: &str) -> (r: Option<usize>)
    ensures
        match r {
            Some(i) => first_quota_index(models@, name@) == Some(i as int) && i < models@.len(),
            None => first_quota_index(models@, name@) is None,
        },
{
    let mut i: usize = 0;
    while i < models.len()
        invariant
            i <= models@.len(),
            first_quota_index(models@.take(i as int), name@) is None,
        decreases models.len() - i,
    {
        assert(models@.take(i as int + 1).drop_last() =~= models@.take(i as int));
        if str_eq(models[i].name.as_str(), name) {
            proof {
                lemma_first_quota_prefix(models@, name@, i as int + 1);
            }
            return Some(i);
        }
        i += 1;
    }
    assert(models@.take(models.len() as int) =~= models@);
    None
}

/// A first quota found in a prefix is the first quota.
proof fn lemma_first_quota_prefix(models: Seq<ModelQuota>, name: Seq<char>, n: int)
    requires
        0 <= n <= models.len(),
        first_quota_index(models.take(n), name) is Some,
    ensures
        first_quota_index(models, name) == first_quota_index(models.take(n), name),
    decreases models.len(),
{
    if n < models.len() {
        assert(models.drop_last().take(n) =~= models.take(n));
        lemma_first_quota_prefix(models.drop_last(), name, n);
    } else {
        assert(models.take(n) =~= models);
    }
}

impl SchedulerState {
    /// `handle_quota_reset_task`'s look at the quotas, at time `now_ms`: for
    /// each selected model and each selected account (by position) that has
    /// a quota for it, the reset is observed as `observe_quota_reset` does;
    /// gives back the models whose reset starts a run, each once, in the
    /// order they first did.
    pub fn observe_quota_resets(
        &mut self,
        task_id: &str,
        models: &Vec<String>,
        positions: &Vec<usize>,
        accounts: &Vec<QuotaAccount>,
        now_ms: i64,
    ) -> (r: Vec<String>)
        requires
            old(self).well_formed(),
            forall|k: int| 0 <= k < positions@.len() ==> positions@[k] < accounts@.len(),
        ensures
            final(self).well_formed(),
            final(self).enabled == old(self).enabled,
            final(self).tasks@ == old(self).tasks@,
            final(self).running() == old(self).running(),
            final(self).executed_at() == old(self).executed_at(),
            ({
                let m0 = reset_maps(*old(self), task_id@);
                let f = reset_fold(
                    m0.0,
                    m0.1,
                    m0.2,
                    reset_observations(models@, positions@.map_values(|i: usize| i as int), accounts@),
                    now_ms,
                );
                &&& reset_maps(*final(self), task_id@) == (f.0, f.1, f.2)
                &&& strs(r@) == crate::strings::first_occurrences(f.3)
            }),
    {
        let ghost m0 = reset_maps(*self, task_id@);
        let ghost pos = positions@.map_values(|i: usize| i as int);
        let ghost start = *self;
        let mut fired: Vec<String> = Vec::new();
        let mut a: usize = 0;
        while a < models.len()
            invariant
                a <= models@.len(),
                pos == positions@.map_values(|i: usize| i as int),
                forall|k: int| 0 <= k < positions@.len() ==> positions@[k] < accounts@.len(),
                self.well_formed(),
                self.enabled == start.enabled,
                self.tasks@ == start.tasks@,
                self.running() == start.running(),
                self.executed_at() == start.executed_at(),
                ({
                    let f = reset_fold(m0.0, m0.1, m0.2, reset_observations(models@.take(a as int), pos, accounts@), now_ms);
                    &&& reset_maps(*self, task_id@) == (f.0, f.1, f.2)
                    &&& strs(fired@) == crate::strings::first_occurrences(f.3)
                }),
            decreases models.len() - a,
        {
            let ghost before_model = reset_observations(models@.take(a as int), pos, accounts@);
            assert(models@.take(a as int + 1).drop_last() =~= models@.take(a as int));
            assert(reset_observations(models@.take(a as int + 1), pos, accounts@) == before_model
                + model_observations(models@[a as int]@, pos, accounts@));
            let name = models[a].as_str();
            let mut b: usize = 0;
            while b < positions.len()
                invariant
                    a < models@.len(),
                    b <= positions@.len(),
                    name@ == models@[a as int]@,
                    pos == positions@.map_values(|i: usize| i as int),
                    forall|k: int| 0 <= k < positions@.len() ==> positions@[k] < accounts@.len(),
                    self.well_formed(),
                    self.enabled == start.enabled,
                    self.tasks@ == start.tasks@,
                    self.running() == start.running(),
                    self.executed_at() == start.executed_at(),
                    ({
                        let f = reset_fold(
                            m0.0,
                            m0.1,
                            m0.2,
                            before_model + model_observations(name@, pos.take(b as int), accounts@),
                            now_ms,
                        );
                        &&& reset_maps(*self, task_id@) == (f.0, f.1, f.2)
                        &&& strs(fired@) == crate::strings::first_occurrences(f.3)
                    }),
                decreases positions.len() - b,
            {
                let ghost prefix = before_model + model_observations(name@, pos.take(b as int), accounts@);
                assert(pos.take(b as int + 1).drop_last() =~= pos.take(b as int));
                assert(pos.take(b as int + 1).last() == positions@[b as int] as int);
                let account = &accounts[positions[b]];
                match find_model_quota(&account.models, name) {
                    Some(q) => {
                        let quota = &account.models[q];
                        let ghost o: ResetObservation = (name@, quota.reset_time@, quota.percentage);
                        assert(observation_of(accounts@[positions@[b as int] as int], name@) == seq![o]);
                        assert(before_model + model_observations(name@, pos.take(b as int + 1), accounts@) =~= prefix.push(
                            o,
                        ));
                        assert(prefix.push(o).drop_last() =~= prefix);
                        let ghost f0 = reset_fold(m0.0, m0.1, m0.2, prefix, now_ms);
                        let ghost f1 = reset_fold(m0.0, m0.1, m0.2, prefix.push(o), now_ms);
                        assert(reset_maps(*self, task_id@) == (f0.0, f0.1, f0.2));
                        let triggered = self.observe_quota_reset(
                            task_id,
                            name,
                            quota.reset_time.as_str(),
                            quota.percentage,
                            now_ms,
                        );
                        assert(triggered == reset_triggers(f0.0, f0.1, o.0, o.1, o.2 as int, now_ms as int));
                        assert(f1.0 == (if triggered { f0.0.insert(o.0, o.1) } else { f0.0 }));
                        assert(f1.1 == (if triggered { f0.1.insert(o.0, now_ms) } else { f0.1 }));
                        assert(f1.2 == f0.2.insert(o.0, o.2));
                        assert(reset_maps(*self, task_id@) == (f1.0, f1.1, f1.2));
                        if triggered {
                            let ghost old_fired = fired@;
                            assert(f1.3 == f0.3.push(name@));
                            assert(f0.3.push(name@).drop_last() =~= f0.3);
                            assert(f0.3.push(name@).last() == name@);
                            if !list_contains(&fired, name) {
                                fired.push(name.to_string());
                                assert(strs(fired@) =~= strs(old_fired).push(name@));
                            }
                        } else {
                            assert(f1.3 == f0.3);
                        }
                    },
                    None => {
                        assert(observation_of(accounts@[positions@[b as int] as int], name@) =~= Seq::<
                            ResetObservation,
                        >::empty());
                        assert(before_model + model_observations(name@, pos.take(b as int + 1), accounts@) =~= prefix);
                    },
                }
                b += 1;
            }
            assert(pos.take(positions.len() as int) =~= pos);
            a += 1;
        }
        assert(models@.take(models.len() as int) =~= models@);
        fired
    }
}

/// `handle_quota_reset_task`'s decisions for the task at `task_index`, at
/// minute `current_minutes` of the day and time `now_ms`: outside its time
/// gate, or when it selects no watched account, it runs for no model;
/// otherwise it observes the resets of its models in the accounts it
/// selects and runs for the models they trigger.
pub fn handle_quota_reset_task(
    state: &mut SchedulerState,
    task_index: usize,
    accounts: &Vec<QuotaAccount>,
    current_minutes: i32,
    now_ms: i64,
) -> (r: Vec<String>)
    requires
        old(state).well_formed(),
        task_index < old(state).tasks@.len(),
    ensures
        final(state).well_formed(),
        final(state).enabled == old(state).enabled,
        final(state).tasks@ == old(state).tasks@,
        final(state).running() == old(state).running(),
        final(state).executed_at() == old(state).executed_at(),
        ({
            let task = old(state).tasks@[task_index as int];
            let positions = selected_positions(task.schedule.selected_accounts@, accounts@);
            if !(!task.schedule.time_window_enabled || in_window_spec(
                match task.schedule.time_window_start {
                    Some(s) => Some(s@),
                    None => None,
                },
                match task.schedule.time_window_end {
                    Some(e) => Some(e@),
                    None => None,
                },
                current_minutes as int,
            ) || fallback_now(task.schedule.fallback_times@, current_minutes as int)) || positions.len() == 0 {
                r@.len() == 0 && *final(state) == *old(state)
            } else {
                let m0 = reset_maps(*old(state), task.id@);
                let f = reset_fold(
                    m0.0,
                    m0.1,
                    m0.2,
                    reset_observations(task.schedule.selected_models@, positions, accounts@),
                    now_ms,
                );
                &&& reset_maps(*final(state), task.id@) == (f.0, f.1, f.2)
                &&& strs(r@) == crate::strings::first_occurrences(f.3)
            }
        }),
{
    if !quota_reset_window_open(&state.tasks[task_index].schedule, current_minutes) {
        return Vec::new();
    }
    let positions = select_quota_accounts(&state.tasks[task_index].schedule.selected_accounts, accounts);
    if positions.len() == 0 {
        return Vec::new();
    }
    let task_id = state.tasks[task_index].id.clone();
    let models = crate::strings::clone_strings(&state.tasks[task_index].schedule.selected_models);
    proof {
        assert(positions@.map_values(|i: usize| i as int).len() == positions@.len());
    }
    let ghost task = state.tasks@[task_index as int];
    assert(strs(models@) == strs(task.schedule.selected_models@));
    let r = state.observe_quota_resets(task_id.as_str(), &models, &positions, accounts, now_ms);
    proof {
        lemma_observations_by_names(models@, task.schedule.selected_models@, positions@.map_values(|i: usize| i as int), accounts@);
    }
    r
}

/// The observations depend on the selected models' names only.
proof fn lemma_observations_by_names(a: Seq<String>, b: Seq<String>, positions: Seq<int>, accounts: Seq<QuotaAccount>)
    requires
        strs(a) == strs(b),
    ensures
        reset_observations(a, positions, accounts) == reset_observations(b, positions, accounts),
    decreases a.len(),
{
    assert(a.len() == strs(a).len() && b.len() == strs(b).len());
    if a.len() > 0 {
        assert(strs(a.drop_last()) =~= strs(a).drop_last());
        assert(strs(b.drop_last()) =~= strs(b).drop_last());
        lemma_observations_by_names(a.drop_last(), b.drop_last(), positions, accounts);
        assert(a.last()@ == strs(a)[a.len() - 1]);
        assert(b.last()@ == strs(b)[b.len() - 1]);
    }
}

} // verus!
