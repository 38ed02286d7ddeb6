//! The scheduler's state: the tasks, the runs in progress, the quota-reset
//! bookkeeping per task and model, and the confirmations that wait for the user.
use vstd::prelude::*;
use crate::keyed::{keys_unique, no_repeats, str_set, to_map};
use crate::strings::opt_str;
use crate::wakeup::{
    clone_task, same_task, task_from, task_from_input, WakeupTask, WakeupTaskInput,
    RESET_SAFETY_MARGIN_MS, RESET_TRIGGER_COOLDOWN_MS,
};

verus! {

broadcast use vstd::string::group_string_axioms;

/// The instant, in milliseconds since the epoch, that an RFC 3339 text names.
pub uninterp spec fn rfc3339_millis(text: Seq<char>) -> Option<i64>;

/// `chrono::DateTime::parse_from_rfc3339(text)` in milliseconds since the
/// epoch; `None` when chrono refuses the text. Nothing is claimed of the
/// value beyond its name: the result is a function of the text alone.
#[verifier::external_body]
fn parse_rfc3339_millis(text: &str) -> (r: Option<i64>)
    ensures
        r == rfc3339_millis(text@),
{
    chrono::DateTime::parse_from_rfc3339(text).ok().map(|dt| dt.timestamp_millis())
}

/// What the scheduler remembers of the quota resets of one task, per model.
#[derive(Debug)]
pub struct ResetState {
    pub last_reset_trigger_timestamps: Vec<(String, String)>,
    pub last_reset_trigger_at: Vec<(String, i64)>,
    pub last_reset_remaining: Vec<(String, i32)>,
}

impl ResetState {
    pub open spec fn well_formed(&self) -> bool {
        &&& keys_unique(self.last_reset_trigger_timestamps@)
        &&& keys_unique(self.last_reset_trigger_at@)
        &&& keys_unique(self.last_reset_remaining@)
    }

    /// The reset time that last triggered a run of each model.
    pub open spec fn timestamps(&self) -> Map<Seq<char>, Seq<char>> {
        to_map(self.last_reset_trigger_timestamps@).map_values(|s: String| s@)
    }

    /// When each model last triggered a run.
    pub open spec fn trigger_at(&self) -> Map<Seq<char>, i64> {
        to_map(self.last_reset_trigger_at@)
    }

    /// The last remaining percentage seen of each model.
    pub open spec fn remaining(&self) -> Map<Seq<char>, i32> {
        to_map(self.last_reset_remaining@)
    }

    pub fn new() -> (r: ResetState)
        ensures
            r.well_formed(),
            r.timestamps() == Map::<Seq<char>, Seq<char>>::empty(),
            r.trigger_at() == Map::<Seq<char>, i64>::empty(),
            r.remaining() == Map::<Seq<char>, i32>::empty(),
    {
        let r = ResetState {
            last_reset_trigger_timestamps: Vec::new(),
            last_reset_trigger_at: Vec::new(),
            last_reset_remaining: Vec::new(),
        };
        assert(r.timestamps() =~= Map::<Seq<char>, Seq<char>>::empty());
        r
    }
}

/// Whether a quota reset of a model starts a run (decided before the
/// remaining percentage is recorded).
pub open spec fn reset_triggers(
    timestamps: Map<Seq<char>, Seq<char>>,
    trigger_at: Map<Seq<char>, i64>,
    model_key: Seq<char>,
    reset_at: Seq<char>,
    remaining_percent: int,
    now: int,
) -> bool {
    if remaining_percent < 100 {
        false
    } else if timestamps.dom().contains(model_key) && rfc3339_millis(timestamps[model_key]) is Some
        && now < rfc3339_millis(timestamps[model_key])->0 + RESET_SAFETY_MARGIN_MS {
        false
    } else if trigger_at.dom().contains(model_key) && now - trigger_at[model_key]
        < RESET_TRIGGER_COOLDOWN_MS {
        false
    } else if timestamps.dom().contains(model_key) && timestamps[model_key] == reset_at {
        false
    } else {
        true
    }
}

/// `should_trigger_on_reset`: whether the reset of `model_key` reported at
/// `reset_at` with `remaining_percent` left starts a run at `now_ms`. The
/// remaining percentage is recorded in every case.
pub fn should_trigger_on_reset(
    state: &mut ResetState,
    model_key: &str,
    reset_at: &str,
    remaining_percent: i32,
    now_ms: i64,
) -> (r: bool)
    requires
        old(state).well_formed(),
    ensures
        final(state).well_formed(),
        r == reset_triggers(
            old(state).timestamps(),
            old(state).trigger_at(),
            model_key@,
            reset_at@,
            remaining_percent as int,
            now_ms as int,
        ),
        final(state).remaining() == old(state).remaining().insert(model_key@, remaining_percent),
        final(state).timestamps() == old(state).timestamps(),
        final(state).trigger_at() == old(state).trigger_at(),
{
    let ghost ts = state.timestamps();
    let ghost at = state.trigger_at();
    let decision = reset_decision(state, model_key, reset_at, remaining_percent, now_ms);
    crate::keyed::insert_key(&mut state.last_reset_remaining, model_key.to_string(), remaining_percent);
    decision
}

fn reset_decision(state: &ResetState, model_key: &str, reset_at: &str, remaining_percent: i32, now_ms: i64) -> (r: bool)
    requires
        state.well_formed(),
    ensures
        r == reset_triggers(
            state.timestamps(),
            state.trigger_at(),
            model_key@,
            reset_at@,
            remaining_percent as int,
            now_ms as int,
        ),
{
    if remaining_percent < 100 {
        return false;
    }
    let last_ts = crate::keyed::get_key(&state.last_reset_trigger_timestamps, model_key);
    if let Some(last_reset_at) = last_ts {
        if let Some(last_reset_time) = parse_rfc3339_millis(last_reset_at.as_str()) {
            let safe_time: i128 = last_reset_time as i128 + RESET_SAFETY_MARGIN_MS as i128;
            if (now_ms as i128) < safe_time {
                return false;
            }
        }
    }
    if let Some(last_trigger_at) = crate::keyed::get_key(&state.last_reset_trigger_at, model_key) {
        if (now_ms as i128) - (*last_trigger_at as i128) < RESET_TRIGGER_COOLDOWN_MS as i128 {
            return false;
        }
    }
    if let Some(last_reset_at) = last_ts {
        if crate::text::str_eq(last_reset_at.as_str(), reset_at) {
            return false;
        }
    }
    true
}

/// `mark_reset_triggered`: remembers that the reset at `reset_at` started a run at `now_ms`.
pub fn mark_reset_triggered(state: &mut ResetState, model_key: &str, reset_at: &str, now_ms: i64)
    requires
        old(state).well_formed(),
    ensures
        final(state).well_formed(),
        final(state).timestamps() == old(state).timestamps().insert(model_key@, reset_at@),
        final(state).trigger_at() == old(state).trigger_at().insert(model_key@, now_ms),
        final(state).remaining() == old(state).remaining(),
{
    let ghost before = to_map(state.last_reset_trigger_timestamps@);
    let key = model_key.to_string();
    let value = reset_at.to_string();
    crate::keyed::insert_key(&mut state.last_reset_trigger_timestamps, key, value);
    proof {
        assert(state.timestamps() =~= before.map_values(|s: String| s@).insert(model_key@, reset_at@));
    }
    crate::keyed::insert_key(&mut state.last_reset_trigger_at, model_key.to_string(), now_ms);
}

/// Once a reset whose reset time `T` parses has started a run of a model
/// (`mark_reset_triggered`), a later `should_trigger_on_reset` of that model
/// starts no run while `now` is earlier than `T` plus the safety margin,
/// whatever reset time and remaining percentage it reports.
pub proof fn law_no_retrigger_before_reset_passes(
    before: ResetState,
    after: ResetState,
    model_key: Seq<char>,
    marked_reset_at: Seq<char>,
    marked_now: i64,
    reset_at: Seq<char>,
    remaining_percent: int,
    now: int,
    r: bool,
)
    requires
        after.timestamps() == before.timestamps().insert(model_key, marked_reset_at),
        after.trigger_at() == before.trigger_at().insert(model_key, marked_now),
        rfc3339_millis(marked_reset_at) matches Some(t) && now < t + RESET_SAFETY_MARGIN_MS,
        r == reset_triggers(after.timestamps(), after.trigger_at(), model_key, reset_at, remaining_percent, now),
    ensures
        !r,
{
    assert(after.timestamps().dom().contains(model_key));
    assert(after.timestamps()[model_key] == marked_reset_at);
}

/// After `mark_reset_triggered` of a model at `marked_now` for the reset at
/// `marked_reset_at`, a later report of that model starts no run while its
/// quota is not full, within the cooldown after the marked run, or for the
/// same reset time again; and it does start one when the quota is full, the
/// marked reset time (when it parses) plus the safety margin has passed, the
/// cooldown has passed and the reported reset time is a new one.
pub proof fn law_reset_trigger_after_mark(
    before: ResetState,
    after: ResetState,
    model_key: Seq<char>,
    marked_reset_at: Seq<char>,
    marked_now: i64,
    reset_at: Seq<char>,
    remaining_percent: int,
    now: int,
    r: bool,
)
    requires
        after.timestamps() == before.timestamps().insert(model_key, marked_reset_at),
        after.trigger_at() == before.trigger_at().insert(model_key, marked_now),
        r == reset_triggers(after.timestamps(), after.trigger_at(), model_key, reset_at, remaining_percent, now),
    ensures
        remaining_percent < 100 ==> !r,
        now < marked_now + RESET_TRIGGER_COOLDOWN_MS ==> !r,
        reset_at == marked_reset_at ==> !r,
        remaining_percent >= 100 && now >= marked_now + RESET_TRIGGER_COOLDOWN_MS && reset_at != marked_reset_at
            && (rfc3339_millis(marked_reset_at) matches Some(t) ==> now >= t + RESET_SAFETY_MARGIN_MS) ==> r,
{
    assert(after.timestamps().dom().contains(model_key));
    assert(after.timestamps()[model_key] == marked_reset_at);
    assert(after.trigger_at().dom().contains(model_key));
    assert(after.trigger_at()[model_key] == marked_now);
}

/// A run that waits for the user's confirmation.
#[derive(Debug)]
pub struct PendingConfirmation {
    pub task: WakeupTask,
    pub trigger_source: String,
    pub scheduled_at: i64,
    pub timeout_at: i64,
}

/// The confirmation that a run of `task` started at `now` (seconds) waits for:
/// it times out after the task's confirmation timeout.
pub fn pending_confirmation_for(task: &WakeupTask, trigger_source: &str, now: i64) -> (p: PendingConfirmation)
    requires
        i64::MIN <= now + task.confirm_timeout_minutes * 60 <= i64::MAX,
    ensures
        same_task(p.task, *task),
        p.trigger_source@ == trigger_source@,
        p.scheduled_at == now,
        p.timeout_at == now + task.confirm_timeout_minutes * 60,
{
    let timeout_at = now + (task.confirm_timeout_minutes as i64) * 60;
    PendingConfirmation {
        task: clone_task(task),
        trigger_source: trigger_source.to_string(),
        scheduled_at: now,
        timeout_at,
    }
}

/// The confirmations that wait, by task id.
#[derive(Debug)]
pub struct PendingConfirmations {
    pub entries: Vec<(String, PendingConfirmation)>,
}

impl PendingConfirmations {
    pub open spec fn well_formed(&self) -> bool {
        keys_unique(self.entries@)
    }

    pub open spec fn view(&self) -> Map<Seq<char>, PendingConfirmation> {
        to_map(self.entries@)
    }

    pub fn new() -> (r: PendingConfirmations)
        ensures
            r.well_formed(),
            r@ == Map::<Seq<char>, PendingConfirmation>::empty(),
    {
        PendingConfirmations { entries: Vec::new() }
    }

    /// Stores a pending confirmation: the one for `task_id` replaces any earlier one.
    pub fn store(&mut self, task_id: String, pending: PendingConfirmation)
        requires
            old(self).well_formed(),
        ensures
            final(self).well_formed(),
            final(self)@ == old(self)@.insert(task_id@, pending),
    {
        crate::keyed::insert_key(&mut self.entries, task_id, pending);
    }

    /// Takes the confirmation of `task_id` out, if one waits.
    pub fn take(&mut self, task_id: &str) -> (r: Option<PendingConfirmation>)
        requires
            old(self).well_formed(),
        ensures
            final(self).well_formed(),
            final(self)@ == old(self)@.remove(task_id@),
            match r {
                Some(p) => old(self)@.dom().contains(task_id@) && old(self)@[task_id@] == p,
                None => !old(self)@.dom().contains(task_id@),
            },
    {
        crate::keyed::remove_key(&mut self.entries, task_id)
    }

    /// Takes out every confirmation that timed out before `now` (seconds),
    /// in the order in which they were stored.
    pub fn take_expired(&mut self, now: i64) -> (r: Vec<(String, PendingConfirmation)>)
        requires
            old(self).well_formed(),
        ensures
            final(self).well_formed(),
            final(self)@ == old(self)@.restrict(
                old(self)@.dom().filter(|k: Seq<char>| now <= old(self)@[k].timeout_at),
            ),
            forall|i: int| 0 <= i < r@.len() ==> {
                &&& old(self)@.dom().contains(#[trigger] r@[i].0@)
                &&& old(self)@[r@[i].0@] == r@[i].1
                &&& now > r@[i].1.timeout_at
            },
            forall|k: Seq<char>| #[trigger] old(self)@.dom().contains(k) && now > old(self)@[k].timeout_at
                ==> exists|i: int| 0 <= i < r@.len() && r@[i].0@ == k,
    {
        let ghost old_map = self@;
        let mut kept: Vec<(String, PendingConfirmation)> = Vec::new();
        let mut expired: Vec<(String, PendingConfirmation)> = Vec::new();
        let ghost entries = self.entries@;
        let mut source: Vec<(String, PendingConfirmation)> = Vec::new();
        std::mem::swap(&mut source, &mut self.entries);
        assert(source@ == entries);
        assert(entries.len() == source.len());
        let mut n: usize = 0;
        while source.len() > 0
            invariant
                keys_unique(entries),
                old_map == to_map(entries),
                n + source@.len() == entries.len(),
                entries.len() <= usize::MAX,
                source@ == entries.skip(n as int),
                kept@ == kept_entries(entries.take(n as int), now),
                expired@ == expired_entries(entries.take(n as int), now),
            decreases source.len(),
        {
            let e = source.remove(0);
            proof {
                assert(e == entries[n as int]);
                assert(entries.take(n + 1).drop_last() =~= entries.take(n as int));
                assert(entries.take(n + 1).last() == entries[n as int]);
                reveal(Seq::filter);
            }
            if now > e.1.timeout_at {
                expired.push(e);
            } else {
                kept.push(e);
            }
            n = n + 1;
            assert(source@ =~= entries.skip(n as int));
        }
        proof {
            assert(entries.take(n as int) =~= entries);
        }
        self.entries = kept;
        proof {
            lemma_filter_keys(entries, now);
        }
        expired
    }
}

/// The confirmations that have not timed out at `now`.
pub open spec fn kept_entries(entries: Seq<(String, PendingConfirmation)>, now: i64) -> Seq<(String, PendingConfirmation)> {
    entries.filter(keeps(now))
}

/// A confirmation has not timed out at `now`.
pub open spec fn keeps(now: i64) -> spec_fn((String, PendingConfirmation)) -> bool {
    |e: (String, PendingConfirmation)| now <= e.1.timeout_at
}

/// A confirmation has timed out at `now`.
pub open spec fn drops(now: i64) -> spec_fn((String, PendingConfirmation)) -> bool {
    |e: (String, PendingConfirmation)| now > e.1.timeout_at
}

/// The confirmations that have timed out at `now`.
pub open spec fn expired_entries(entries: Seq<(String, PendingConfirmation)>, now: i64) -> Seq<(String, PendingConfirmation)> {
    entries.filter(drops(now))
}

/// Splitting the confirmations by their timeout.
proof fn lemma_filter_keys(entries: Seq<(String, PendingConfirmation)>, now: i64)
    requires
        keys_unique(entries),
    ensures
        keys_unique(kept_entries(entries, now)),
        to_map(kept_entries(entries, now))
            == to_map(entries).restrict(to_map(entries).dom().filter(|k: Seq<char>| now <= to_map(entries)[k].timeout_at)),
        forall|i: int| 0 <= i < expired_entries(entries, now).len() ==> {
            let e = #[trigger] expired_entries(entries, now)[i];
            &&& to_map(entries).dom().contains(e.0@)
            &&& to_map(entries)[e.0@] == e.1
            &&& now > e.1.timeout_at
        },
        forall|k: Seq<char>| #[trigger] to_map(entries).dom().contains(k) && now > to_map(entries)[k].timeout_at
            ==> exists|i: int| 0 <= i < expired_entries(entries, now).len()
                && expired_entries(entries, now)[i].0@ == k,
    decreases entries.len(),
{
    reveal(Seq::filter);
    let keep = keeps(now);
    let drop = drops(now);
    if entries.len() > 0 {
        let init = entries.drop_last();
        let last = entries.last();
        assert(keys_unique(init));
        lemma_filter_keys(init, now);
        crate::keyed::lemma_to_map_dom(init);
        crate::keyed::lemma_to_map_dom(kept_entries(init, now));
        assert forall|i: int| 0 <= i < init.len() implies init[i].0@ != last.0@ by {
            assert(entries[i] == init[i]);
        }
        assert(!to_map(init).dom().contains(last.0@)) by {
            if to_map(init).dom().contains(last.0@) {
                let j = choose|j: int| 0 <= j < init.len() && init[j].0@ == last.0@;
            }
        }
        broadcast use vstd::seq_lib::group_filter_ensures;

        assert(entries.drop_last() == init);
        if keep(last) {
            assert(kept_entries(entries, now) == kept_entries(init, now).push(last));
            assert(expired_entries(entries, now) == expired_entries(init, now));
            assert forall|a: int, b: int| 0 <= a < b < kept_entries(entries, now).len() implies #[trigger] kept_entries(entries, now)[a].0@
                != #[trigger] kept_entries(entries, now)[b].0@ by {
                if b == kept_entries(entries, now).len() - 1 {
                    let x = kept_entries(init, now)[a];
                    assert(to_map(kept_entries(init, now)).dom().contains(x.0@));
                    assert(to_map(init).dom().contains(x.0@));
                } else {
                    assert(kept_entries(entries, now)[a] == kept_entries(init, now)[a]);
                    assert(kept_entries(entries, now)[b] == kept_entries(init, now)[b]);
                }
            }
        } else {
            assert(kept_entries(entries, now) == kept_entries(init, now));
            assert(expired_entries(entries, now) == expired_entries(init, now).push(last));
        }
        let target = to_map(entries).restrict(
            to_map(entries).dom().filter(|k: Seq<char>| now <= to_map(entries)[k].timeout_at),
        );
        let init_target = to_map(init).restrict(
            to_map(init).dom().filter(|k: Seq<char>| now <= to_map(init)[k].timeout_at),
        );
        assert(to_map(kept_entries(init, now)) == init_target);
        assert(to_map(entries) == to_map(init).insert(last.0@, last.1));
        assert forall|k: Seq<char>| #[trigger] target.dom().contains(k) <==> to_map(kept_entries(entries, now)).dom().contains(k) by {
            if k == last.0@ {
                assert(!to_map(kept_entries(init, now)).dom().contains(k));
                if keep(last) {
                    assert(kept_entries(entries, now).drop_last() == kept_entries(init, now));
                    assert(kept_entries(entries, now).last() == last);
                    assert(to_map(kept_entries(entries, now)) == to_map(kept_entries(init, now)).insert(last.0@, last.1));
                }
            } else {
                assert(to_map(entries).dom().contains(k) <==> to_map(init).dom().contains(k));
                if to_map(init).dom().contains(k) {
                    assert(to_map(entries)[k] == to_map(init)[k]);
                }
                if keep(last) {
                    assert(kept_entries(entries, now).drop_last() == kept_entries(init, now));
                    assert(kept_entries(entries, now).last() == last);
                    assert(to_map(kept_entries(entries, now)) == to_map(kept_entries(init, now)).insert(last.0@, last.1));
                }
            }
        }
        assert forall|k: Seq<char>| #[trigger] target.dom().contains(k) implies to_map(kept_entries(entries, now))[k] == target[k] by {
            if keep(last) {
                assert(kept_entries(entries, now).drop_last() == kept_entries(init, now));
                assert(kept_entries(entries, now).last() == last);
            }
            if k != last.0@ {
                assert(to_map(entries)[k] == to_map(init)[k]);
                assert(init_target.dom().contains(k));
            }
        }
        assert(to_map(kept_entries(entries, now)).dom() =~= target.dom());
        assert(to_map(kept_entries(entries, now)) =~= target);
        assert forall|i: int| 0 <= i < expired_entries(entries, now).len() implies {
            let e = #[trigger] expired_entries(entries, now)[i];
            &&& to_map(entries).dom().contains(e.0@)
            &&& to_map(entries)[e.0@] == e.1
            &&& now > e.1.timeout_at
        } by {
            let e = expired_entries(entries, now)[i];
            if i < expired_entries(init, now).len() {
                assert(e == expired_entries(init, now)[i]);
                assert(e.0@ != last.0@);
            }
        }
        assert forall|k: Seq<char>| #[trigger] to_map(entries).dom().contains(k) && now > to_map(entries)[k].timeout_at
            implies exists|i: int| 0 <= i < expired_entries(entries, now).len() && expired_entries(entries, now)[i].0@ == k by {
            if k == last.0@ {
                assert(expired_entries(entries, now)[expired_entries(entries, now).len() - 1].0@ == k);
            } else {
                assert(to_map(init).dom().contains(k));
                let i = choose|i: int| 0 <= i < expired_entries(init, now).len() && expired_entries(init, now)[i].0@ == k;
                assert(expired_entries(entries, now)[i] == expired_entries(init, now)[i]);
            }
        }
    } else {
        assert(to_map(kept_entries(entries, now)) =~= to_map(entries).restrict(
            to_map(entries).dom().filter(|k: Seq<char>| now <= to_map(entries)[k].timeout_at),
        ));
    }
}

/// The scheduler's state.
#[derive(Debug)]
pub struct SchedulerState {
    pub enabled: bool,
    pub tasks: Vec<WakeupTask>,
    pub running_tasks: Vec<String>,
    pub reset_states: Vec<(String, ResetState)>,
    /// When each task last ran here; a list sent by the user interface does not overwrite it.
    pub last_executed_at: Vec<(String, i64)>,
}

/// A task that waits for the application's start.
pub open spec fn is_startup_task(t: WakeupTask) -> bool {
    t.enabled && t.schedule.startup_delay_minutes is Some
}

/// A task that a manual run starts.
pub open spec fn runnable(enabled: bool, running: Set<Seq<char>>, t: WakeupTask) -> bool {
    enabled && t.enabled && t.schedule.startup_delay_minutes is None && !running.contains(t.id@)
}

/// The startup tasks of a list with their delay (negative delays count as 0).
pub open spec fn startup_entries(tasks: Seq<WakeupTask>) -> Seq<(Seq<char>, i32)>
    decreases tasks.len(),
{
    if tasks.len() == 0 {
        Seq::empty()
    } else {
        let rest = startup_entries(tasks.drop_last());
        let t = tasks.last();
        if is_startup_task(t) {
            let d = t.schedule.startup_delay_minutes->0;
            rest.push((t.id@, if d < 0 { 0i32 } else { d }))
        } else {
            rest
        }
    }
}

impl SchedulerState {
    pub open spec fn well_formed(&self) -> bool {
        &&& no_repeats(self.running_tasks@)
        &&& keys_unique(self.reset_states@)
        &&& forall|k: Seq<char>| #[trigger] to_map(self.reset_states@).dom().contains(k) ==> to_map(self.reset_states@)[k].well_formed()
        &&& keys_unique(self.last_executed_at@)
    }

    /// The ids of the tasks that run now.
    pub open spec fn running(&self) -> Set<Seq<char>> {
        str_set(self.running_tasks@)
    }

    /// When each task last ran here.
    pub open spec fn executed_at(&self) -> Map<Seq<char>, i64> {
        to_map(self.last_executed_at@)
    }

    pub fn new() -> (r: SchedulerState)
        ensures
            r.well_formed(),
            !r.enabled,
            r.tasks@.len() == 0,
            r.running() == Set::<Seq<char>>::empty(),
            r.executed_at() == Map::<Seq<char>, i64>::empty(),
            forall|k: Seq<char>| #[trigger] r.reset_state_of(k) is None,
    {
        let r = SchedulerState {
            enabled: false,
            tasks: Vec::new(),
            running_tasks: Vec::new(),
            reset_states: Vec::new(),
            last_executed_at: Vec::new(),
        };
        assert(r.running() =~= Set::<Seq<char>>::empty());
        proof {
            crate::keyed::lemma_to_map_dom(r.reset_states@);
        }
        r
    }

    /// `apply_state`: takes the switch and the task list that the user interface sent.
    pub fn apply_state(&mut self, enabled: bool, tasks: Vec<WakeupTaskInput>)
        requires
            old(self).well_formed(),
        ensures
            final(self).well_formed(),
            final(self).enabled == enabled,
            final(self).tasks@.len() == tasks@.len(),
            forall|i: int| 0 <= i < tasks@.len() ==> task_from(tasks@[i], #[trigger] final(self).tasks@[i]),
            final(self).running() == old(self).running(),
            final(self).executed_at() == old(self).executed_at(),
            final(self).reset_states@ == old(self).reset_states@,
    {
        let ghost inputs = tasks@;
        let mut converted: Vec<WakeupTask> = Vec::new();
        let mut rest = tasks;
        let mut n: usize = 0;
        assert(inputs.len() == rest.len());
        while rest.len() > 0
            invariant
                n <= inputs.len(),
                inputs.len() <= usize::MAX,
                rest@.len() + n == inputs.len(),
                rest@ == inputs.skip(n as int),
                converted@.len() == n,
                forall|i: int| 0 <= i < n ==> task_from(inputs[i], #[trigger] converted@[i]),
            decreases rest@.len(),
        {
            let input = rest.remove(0);
            assert(input == inputs[n as int]);
            converted.push(task_from_input(input));
            n += 1;
            assert(rest@ =~= inputs.skip(n as int));
        }
        self.enabled = enabled;
        self.tasks = converted;
    }

    /// Whether some enabled task waits for the application's start.
    pub fn has_startup_tasks(&self) -> (r: bool)
        ensures
            r == (self.enabled && exists|i: int| 0 <= i < self.tasks@.len() && is_startup_task(#[trigger] self.tasks@[i])),
    {
        if !self.enabled {
            return false;
        }
        let mut i: usize = 0;
        while i < self.tasks.len()
            invariant
                i <= self.tasks@.len(),
                self.enabled,
                forall|k: int| 0 <= k < i ==> !is_startup_task(#[trigger] self.tasks@[k]),
            decreases self.tasks@.len() - i,
        {
            if self.tasks[i].enabled && self.tasks[i].schedule.startup_delay_minutes.is_some() {
                assert(is_startup_task(self.tasks@[i as int]));
                return true;
            }
            i += 1;
        }
        false
    }

    /// The startup tasks with their delays, in list order.
    pub fn startup_task_delays(&self) -> (r: Vec<(String, i32)>)
        ensures
            r@.map_values(|e: (String, i32)| (e.0@, e.1)) == startup_entries(self.tasks@),
    {
        let mut r: Vec<(String, i32)> = Vec::new();
        let mut i: usize = 0;
        while i < self.tasks.len()
            invariant
                i <= self.tasks@.len(),
                r@.map_values(|e: (String, i32)| (e.0@, e.1)) == startup_entries(self.tasks@.take(i as int)),
            decreases self.tasks@.len() - i,
        {
            let ghost prev = r@.map_values(|e: (String, i32)| (e.0@, e.1));
            assert(self.tasks@.take(i + 1).drop_last() =~= self.tasks@.take(i as int));
            assert(self.tasks@.take(i + 1).last() == self.tasks@[i as int]);
            let t = &self.tasks[i];
            if t.enabled {
                match t.schedule.startup_delay_minutes {
                    Some(d) => {
                        r.push((t.id.clone(), if d < 0 { 0 } else { d }));
                        assert(r@.map_values(|e: (String, i32)| (e.0@, e.1)) =~= prev.push((t.id@, if d < 0 { 0i32 } else { d })));
                    },
                    None => {},
                }
            }
            i += 1;
        }
        assert(self.tasks@.take(self.tasks@.len() as int) =~= self.tasks@);
        r
    }

    /// `resolve_startup_task_to_run`: the first enabled startup task with this
    /// id, unless the scheduler is off or the task already runs.
    pub fn resolve_startup_task_to_run(&self, task_id: &str) -> (r: Option<WakeupTask>)
        requires
            self.well_formed(),
        ensures
            (!self.enabled || self.running().contains(task_id@)) ==> r is None,
            (self.enabled && !self.running().contains(task_id@)) ==> match r {
                Some(t) => exists|i: int| 0 <= i < self.tasks@.len() && same_task(t, self.tasks@[i])
                    && self.tasks@[i].id@ == task_id@ && is_startup_task(self.tasks@[i])
                    && forall|k: int| 0 <= k < i ==> !(self.tasks@[k].id@ == task_id@ && is_startup_task(#[trigger] self.tasks@[k])),
                None => forall|k: int| 0 <= k < self.tasks@.len() ==> !(self.tasks@[k].id@ == task_id@ && is_startup_task(#[trigger] self.tasks@[k])),
            },
    {
        if !self.enabled || crate::keyed::set_contains(&self.running_tasks, task_id) {
            return None;
        }
        let mut i: usize = 0;
        while i < self.tasks.len()
            invariant
                i <= self.tasks@.len(),
                self.enabled,
                !self.running().contains(task_id@),
                forall|k: int| 0 <= k < i ==> !(self.tasks@[k].id@ == task_id@ && is_startup_task(#[trigger] self.tasks@[k])),
            decreases self.tasks@.len() - i,
        {
            let t = &self.tasks[i];
            if crate::text::str_eq(t.id.as_str(), task_id) && t.enabled && t.schedule.startup_delay_minutes.is_some() {
                return Some(clone_task(t));
            }
            i += 1;
        }
        None
    }

    /// Marks a task as running.
    pub fn mark_running(&mut self, task_id: &str)
        requires
            old(self).well_formed(),
        ensures
            final(self).well_formed(),
            final(self).running() == old(self).running().insert(task_id@),
            final(self).enabled == old(self).enabled,
            final(self).tasks@ == old(self).tasks@,
            final(self).executed_at() == old(self).executed_at(),
    {
        crate::keyed::set_insert(&mut self.running_tasks, task_id.to_string());
    }

    /// Ends the run of a task at `executed_at` (ms): it no longer runs, and it
    /// last ran then, both in the task list and in the scheduler's own record.
    pub fn finish_run(&mut self, task_id: &str, executed_at: i64)
        requires
            old(self).well_formed(),
        ensures
            final(self).well_formed(),
            final(self).running() == old(self).running().remove(task_id@),
            final(self).executed_at() == old(self).executed_at().insert(task_id@, executed_at),
            final(self).enabled == old(self).enabled,
            final(self).tasks@.len() == old(self).tasks@.len(),
            forall|i: int| 0 <= i < old(self).tasks@.len() ==> {
                let t = #[trigger] final(self).tasks@[i];
                let o = old(self).tasks@[i];
                &&& t.id == o.id
                &&& t.name == o.name
                &&& t.enabled == o.enabled
                &&& t.schedule == o.schedule
                &&& t.execution_mode == o.execution_mode
                &&& t.confirm_timeout_minutes == o.confirm_timeout_minutes
                &&& t.last_run_at == if o.id@ == task_id@ {
                    Some(executed_at)
                } else {
                    o.last_run_at
                }
            },
    {
        crate::keyed::set_remove(&mut self.running_tasks, task_id);
        let ghost before = self.tasks@;
        let ghost le = self.last_executed_at@;
        let ghost run = self.running_tasks@;
        let ghost rs = self.reset_states@;
        let ghost en = self.enabled;
        let mut i: usize = 0;
        while i < self.tasks.len()
            invariant
                i <= self.tasks@.len(),
                self.well_formed(),
                self.last_executed_at@ == le,
                self.running_tasks@ == run,
                self.reset_states@ == rs,
                self.enabled == en,
                self.tasks@.len() == before.len(),
                forall|k: int| i <= k < before.len() ==> #[trigger] self.tasks@[k] == before[k],
                forall|k: int| 0 <= k < i ==> {
                    let t = #[trigger] self.tasks@[k];
                    let o = before[k];
                    &&& t.id == o.id
                    &&& t.name == o.name
                    &&& t.enabled == o.enabled
                    &&& t.schedule == o.schedule
                    &&& t.execution_mode == o.execution_mode
                    &&& t.confirm_timeout_minutes == o.confirm_timeout_minutes
                    &&& t.last_run_at == if o.id@ == task_id@ {
                        Some(executed_at)
                    } else {
                        o.last_run_at
                    }
                },
            decreases self.tasks@.len() - i,
        {
            if crate::text::str_eq(self.tasks[i].id.as_str(), task_id) {
                let mut t = self.tasks.remove(i);
                t.last_run_at = Some(executed_at);
                self.tasks.insert(i, t);
            }
            i += 1;
        }
        crate::keyed::insert_key(&mut self.last_executed_at, task_id.to_string(), executed_at);
    }

    /// The instant after which the next run of task `i` is looked for: when it
    /// last ran here, or else when the user interface says it last ran.
    pub fn last_run_reference(&self, i: usize) -> (r: Option<i64>)
        requires
            self.well_formed(),
            i < self.tasks@.len(),
        ensures
            r == if self.executed_at().dom().contains(self.tasks@[i as int].id@) {
                Some(self.executed_at()[self.tasks@[i as int].id@])
            } else {
                self.tasks@[i as int].last_run_at
            },
    {
        match crate::keyed::get_key(&self.last_executed_at, self.tasks[i].id.as_str()) {
            Some(v) => Some(*v),
            None => self.tasks[i].last_run_at,
        }
    }

    /// The reset bookkeeping of a task (empty for a task not seen before).
    pub open spec fn reset_state_of(&self, task_id: Seq<char>) -> Option<ResetState> {
        if to_map(self.reset_states@).dom().contains(task_id) {
            Some(to_map(self.reset_states@)[task_id])
        } else {
            None
        }
    }

    /// Looks at one quota reset of `model_key` for task `task_id`: decides as
    /// `should_trigger_on_reset`, and when it starts a run, remembers the reset
    /// as `mark_reset_triggered` does. Gives back whether a run starts.
    pub fn observe_quota_reset(&mut self, task_id: &str, model_key: &str, reset_at: &str, remaining_percent: i32, now_ms: i64) -> (r: bool)
        requires
            old(self).well_formed(),
        ensures
            final(self).well_formed(),
            final(self).enabled == old(self).enabled,
            final(self).tasks@ == old(self).tasks@,
            final(self).running() == old(self).running(),
            final(self).executed_at() == old(self).executed_at(),
            ({
                let (ts, at, rem) = match old(self).reset_state_of(task_id@) {
                    Some(st) => (st.timestamps(), st.trigger_at(), st.remaining()),
                    None => (Map::<Seq<char>, Seq<char>>::empty(), Map::<Seq<char>, i64>::empty(), Map::<Seq<char>, i32>::empty()),
                };
                &&& r == reset_triggers(ts, at, model_key@, reset_at@, remaining_percent as int, now_ms as int)
                &&& final(self).reset_state_of(task_id@) matches Some(st) && {
                    &&& st.remaining() == rem.insert(model_key@, remaining_percent)
                    &&& st.timestamps() == if r { ts.insert(model_key@, reset_at@) } else { ts }
                    &&& st.trigger_at() == if r { at.insert(model_key@, now_ms) } else { at }
                }
            }),
    {
        let ghost old_states = self.reset_states@;
        let mut st = match crate::keyed::remove_key(&mut self.reset_states, task_id) {
            Some(st) => st,
            None => ResetState::new(),
        };
        let triggered = should_trigger_on_reset(&mut st, model_key, reset_at, remaining_percent, now_ms);
        if triggered {
            mark_reset_triggered(&mut st, model_key, reset_at, now_ms);
        }
        crate::keyed::insert_key(&mut self.reset_states, task_id.to_string(), st);
        triggered
    }

    /// The tasks that a manual run starts, in list order: none when the
    /// scheduler is off; otherwise the enabled tasks that do not wait for the
    /// application's start and do not run already.
    pub fn runnable_task_indices(&self) -> (r: Vec<usize>)
        requires
            self.well_formed(),
        ensures
            forall|k: int| 0 <= k < r@.len() ==> r@[k] < self.tasks@.len(),
            forall|a: int, b: int| 0 <= a < b < r@.len() ==> r@[a] < r@[b],
            forall|i: int| 0 <= i < self.tasks@.len() ==> (r@.contains(i as usize) <==> runnable(self.enabled, self.running(), #[trigger] self.tasks@[i])),
    {
        let mut r: Vec<usize> = Vec::new();
        let mut i: usize = 0;
        while i < self.tasks.len()
            invariant
                i <= self.tasks@.len(),
                self.well_formed(),
                forall|k: int| 0 <= k < r@.len() ==> r@[k] < i,
                forall|a: int, b: int| 0 <= a < b < r@.len() ==> r@[a] < r@[b],
                forall|j: int| 0 <= j < i ==> (r@.contains(j as usize) <==> runnable(self.enabled, self.running(), #[trigger] self.tasks@[j])),
            decreases self.tasks@.len() - i,
        {
            let t = &self.tasks[i];
            let ghost before = r@;
            if self.enabled && t.enabled && t.schedule.startup_delay_minutes.is_none()
                && !crate::keyed::set_contains(&self.running_tasks, t.id.as_str()) {
                r.push(i);
                proof {
                    assert forall|j: int| 0 <= j < i implies (#[trigger] r@.contains(j as usize) <==> before.contains(j as usize)) by {
                        if r@.contains(j as usize) {
                            let k = choose|k: int| 0 <= k < r@.len() && r@[k] == j as usize;
                            if k == before.len() {
                                assert(false);
                            } else {
                                assert(before[k] == j as usize);
                            }
                        }
                        if before.contains(j as usize) {
                            let k = choose|k: int| 0 <= k < before.len() && before[k] == j as usize;
                            assert(r@[k] == j as usize);
                        }
                    }
                    assert(r@[before.len() as int] == i);
                }
            } else {
                proof {
                    assert(!before.contains(i as usize));
                }
            }
            i += 1;
        }
        r
    }
}

/// `sync_state`: takes the switch and the task list that the user interface
/// sent (the caller keeps a copy on disk).
pub fn sync_state(state: &mut SchedulerState, enabled: bool, tasks: Vec<WakeupTaskInput>)
    requires
        old(state).well_formed(),
    ensures
        final(state).well_formed(),
        final(state).enabled == enabled,
        final(state).tasks@.len() == tasks@.len(),
        forall|i: int| 0 <= i < tasks@.len() ==> task_from(tasks@[i], #[trigger] final(state).tasks@[i]),
        final(state).running() == old(state).running(),
        final(state).executed_at() == old(state).executed_at(),
        final(state).reset_states@ == old(state).reset_states@,
{
    state.apply_state(enabled, tasks);
}

/// `cancel_pending_confirmation`: drops the confirmation of `task_id`; never fails.
pub fn cancel_pending_confirmation(pending: &mut PendingConfirmations, task_id: &str) -> (r: Result<(), String>)
    requires
        old(pending).well_formed(),
    ensures
        final(pending).well_formed(),
        final(pending)@ == old(pending)@.remove(task_id@),
        r is Ok,
{
    let _ = pending.take(task_id);
    Ok(())
}

} // verus!
