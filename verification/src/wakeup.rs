//! Wake-up tasks: the schedule a user configures, its normalized form, the
//! scheduler's in-memory state, quota-reset triggers and confirmations that
//! wait for the user.
use vstd::prelude::*;
use crate::strings::{clone_i32s, clone_opt_string, clone_strings, list_contains, opt_str, strs};

verus! {

broadcast use vstd::string::group_string_axioms;

/// A reset seen less than this long after the previous one is ignored (ms).
pub const RESET_TRIGGER_COOLDOWN_MS: i64 = 600000;

/// A reset is only trusted this long after the reported reset time (ms).
pub const RESET_SAFETY_MARGIN_MS: i64 = 120000;

/// Prompt sent when a task has none of its own.
pub const DEFAULT_PROMPT: &'static str = "hi";

/// A task as the user interface sends it.
#[derive(Debug)]
pub struct WakeupTaskInput {
    pub id: String,
    pub name: String,
    pub enabled: bool,
    pub last_run_at: Option<i64>,
    pub schedule: ScheduleConfig,
}

/// A schedule as the user interface sends it; absent fields take defaults.
#[derive(Debug)]
pub struct ScheduleConfig {
    pub repeat_mode: String,
    pub daily_times: Option<Vec<String>>,
    pub weekly_days: Option<Vec<i32>>,
    pub weekly_times: Option<Vec<String>>,
    pub interval_hours: Option<i32>,
    pub interval_start_time: Option<String>,
    pub interval_end_time: Option<String>,
    pub selected_models: Vec<String>,
    pub selected_accounts: Vec<String>,
    pub crontab: Option<String>,
    pub wake_on_reset: Option<bool>,
    pub custom_prompt: Option<String>,
    pub max_output_tokens: Option<i32>,
    pub time_window_enabled: Option<bool>,
    pub time_window_start: Option<String>,
    pub time_window_end: Option<String>,
    pub fallback_times: Option<Vec<String>>,
    pub startup_delay_minutes: Option<i32>,
    pub execution_mode: Option<String>,
    pub confirm_timeout_minutes: Option<i32>,
}

/// A task with its schedule normalized.
#[derive(Debug)]
pub struct WakeupTask {
    pub id: String,
    pub name: String,
    pub enabled: bool,
    pub last_run_at: Option<i64>,
    pub schedule: ScheduleConfigNormalized,
    pub execution_mode: String,
    pub confirm_timeout_minutes: i32,
}

/// A schedule with every default filled in.
#[derive(Debug)]
pub struct ScheduleConfigNormalized {
    pub repeat_mode: String,
    pub daily_times: Vec<String>,
    pub weekly_days: Vec<i32>,
    pub weekly_times: Vec<String>,
    pub interval_hours: i32,
    pub interval_start_time: String,
    pub interval_end_time: String,
    pub selected_models: Vec<String>,
    pub selected_accounts: Vec<String>,
    pub crontab: Option<String>,
    pub wake_on_reset: bool,
    pub custom_prompt: Option<String>,
    pub max_output_tokens: i32,
    pub time_window_enabled: bool,
    pub time_window_start: Option<String>,
    pub time_window_end: Option<String>,
    pub fallback_times: Vec<String>,
    pub startup_delay_minutes: Option<i32>,
    pub execution_mode: String,
    pub confirm_timeout_minutes: i32,
}

// ---------------------------------------------------------------------------
// Normalization
// ---------------------------------------------------------------------------

/// A list of times, or the one default time when it is absent or empty.
pub open spec fn times_or(v: Option<Vec<String>>, default: Seq<char>) -> Seq<Seq<char>> {
    match v {
        Some(t) => if t@.len() > 0 {
            strs(t@)
        } else {
            seq![default]
        },
        None => seq![default],
    }
}

/// `v.clamp(lo, hi)`.
pub open spec fn clamp(v: int, lo: int, hi: int) -> int {
    if v < lo {
        lo
    } else if v > hi {
        hi
    } else {
        v
    }
}

/// Two normalized schedules agree on every field.
pub open spec fn same_schedule(a: ScheduleConfigNormalized, b: ScheduleConfigNormalized) -> bool {
    &&& a.repeat_mode@ == b.repeat_mode@
    &&& strs(a.daily_times@) == strs(b.daily_times@)
    &&& a.weekly_days@ == b.weekly_days@
    &&& strs(a.weekly_times@) == strs(b.weekly_times@)
    &&& a.interval_hours == b.interval_hours
    &&& a.interval_start_time@ == b.interval_start_time@
    &&& a.interval_end_time@ == b.interval_end_time@
    &&& strs(a.selected_models@) == strs(b.selected_models@)
    &&& strs(a.selected_accounts@) == strs(b.selected_accounts@)
    &&& opt_str(a.crontab) == opt_str(b.crontab)
    &&& a.wake_on_reset == b.wake_on_reset
    &&& opt_str(a.custom_prompt) == opt_str(b.custom_prompt)
    &&& a.max_output_tokens == b.max_output_tokens
    &&& a.time_window_enabled == b.time_window_enabled
    &&& opt_str(a.time_window_start) == opt_str(b.time_window_start)
    &&& opt_str(a.time_window_end) == opt_str(b.time_window_end)
    &&& strs(a.fallback_times@) == strs(b.fallback_times@)
    &&& a.startup_delay_minutes == b.startup_delay_minutes
    &&& a.execution_mode@ == b.execution_mode@
    &&& a.confirm_timeout_minutes == b.confirm_timeout_minutes
}

/// Two tasks agree on every field.
pub open spec fn same_task(a: WakeupTask, b: WakeupTask) -> bool {
    &&& a.id@ == b.id@
    &&& a.name@ == b.name@
    &&& a.enabled == b.enabled
    &&& a.last_run_at == b.last_run_at
    &&& same_schedule(a.schedule, b.schedule)
    &&& a.execution_mode@ == b.execution_mode@
    &&& a.confirm_timeout_minutes == b.confirm_timeout_minutes
}

/// What `normalize_schedule` makes of `raw`.
pub open spec fn normalized_from(raw: ScheduleConfig, n: ScheduleConfigNormalized) -> bool {
    &&& n.repeat_mode@ == raw.repeat_mode@
    &&& strs(n.daily_times@) == times_or(raw.daily_times, "08:00"@)
    &&& n.weekly_days@ == match raw.weekly_days {
        Some(d) => if d@.len() > 0 {
            d@
        } else {
            seq![1i32, 2, 3, 4, 5]
        },
        None => seq![1i32, 2, 3, 4, 5],
    }
    &&& strs(n.weekly_times@) == times_or(raw.weekly_times, "08:00"@)
    &&& n.interval_hours == match raw.interval_hours {
        Some(h) => if h < 1 {
            1
        } else {
            h
        },
        None => 4,
    }
    &&& n.interval_start_time@ == match raw.interval_start_time {
        Some(s) => s@,
        None => "07:00"@,
    }
    &&& n.interval_end_time@ == match raw.interval_end_time {
        Some(s) => s@,
        None => "22:00"@,
    }
    &&& strs(n.selected_models@) == strs(raw.selected_models@)
    &&& strs(n.selected_accounts@) == strs(raw.selected_accounts@)
    &&& opt_str(n.crontab) == opt_str(raw.crontab)
    &&& n.wake_on_reset == (raw.wake_on_reset == Some(true))
    &&& opt_str(n.custom_prompt) == opt_str(raw.custom_prompt)
    &&& n.max_output_tokens == match raw.max_output_tokens {
        Some(t) => if t < 0 {
            0
        } else {
            t
        },
        None => 0,
    }
    &&& n.time_window_enabled == (raw.time_window_enabled == Some(true))
    &&& opt_str(n.time_window_start) == opt_str(raw.time_window_start)
    &&& opt_str(n.time_window_end) == opt_str(raw.time_window_end)
    &&& strs(n.fallback_times@) == times_or(raw.fallback_times, "07:00"@)
    &&& n.startup_delay_minutes == match raw.startup_delay_minutes {
        Some(d) => Some(clamp(d as int, 0, 1440) as i32),
        None => None,
    }
    &&& n.execution_mode@ == match raw.execution_mode {
        Some(m) => if m@ == "auto"@ || m@ == "confirm"@ {
            m@
        } else {
            "auto"@
        },
        None => "auto"@,
    }
    &&& n.confirm_timeout_minutes == match raw.confirm_timeout_minutes {
        Some(v) => if 1 <= v <= 60 {
            v
        } else {
            5
        },
        None => 5,
    }
}

fn one_time(t: &str) -> (v: Vec<String>)
    ensures
        strs(v@) == seq![t@],
{
    let mut v: Vec<String> = Vec::new();
    v.push(t.to_string());
    assert(strs(v@) =~= seq![t@]);
    v
}

fn times_or_default(v: Option<Vec<String>>, default: &str) -> (r: Vec<String>)
    ensures
        strs(r@) == times_or(v, default@),
{
    match v {
        Some(t) => if t.len() > 0 {
            t
        } else {
            one_time(default)
        },
        None => one_time(default),
    }
}

/// `normalize_schedule`: fills in the defaults of a schedule.
pub fn normalize_schedule(raw: ScheduleConfig) -> (n: ScheduleConfigNormalized)
    ensures
        normalized_from(raw, n),
{
    let ghost raw0 = raw;
    let daily_times = times_or_default(raw.daily_times, "08:00");
    let weekly_days = match raw.weekly_days {
        Some(d) => if d.len() > 0 {
            d
        } else {
            vec![1, 2, 3, 4, 5]
        },
        None => vec![1, 2, 3, 4, 5],
    };
    let weekly_times = times_or_default(raw.weekly_times, "08:00");
    let interval_hours = match raw.interval_hours {
        Some(h) => if h < 1 {
            1
        } else {
            h
        },
        None => 4,
    };
    let interval_start_time = match raw.interval_start_time {
        Some(s) => s,
        None => "07:00".to_string(),
    };
    let interval_end_time = match raw.interval_end_time {
        Some(s) => s,
        None => "22:00".to_string(),
    };
    let max_output_tokens = match raw.max_output_tokens {
        Some(t) => if t < 0 {
            0
        } else {
            t
        },
        None => 0,
    };
    let fallback_times = times_or_default(raw.fallback_times, "07:00");
    let startup_delay_minutes = match raw.startup_delay_minutes {
        Some(d) => Some(
            if d < 0 {
                0
            } else if d > 1440 {
                1440
            } else {
                d
            },
        ),
        None => None,
    };
    let execution_mode = match raw.execution_mode {
        Some(m) => if crate::text::str_eq(m.as_str(), "auto") || crate::text::str_eq(
            m.as_str(),
            "confirm",
        ) {
            m
        } else {
            "auto".to_string()
        },
        None => "auto".to_string(),
    };
    let confirm_timeout_minutes = match raw.confirm_timeout_minutes {
        Some(v) => if v >= 1 && v <= 60 {
            v
        } else {
            5
        },
        None => 5,
    };
    let n = ScheduleConfigNormalized {
        repeat_mode: raw.repeat_mode,
        daily_times,
        weekly_days,
        weekly_times,
        interval_hours,
        interval_start_time,
        interval_end_time,
        selected_models: raw.selected_models,
        selected_accounts: raw.selected_accounts,
        crontab: raw.crontab,
        wake_on_reset: match raw.wake_on_reset {
            Some(b) => b,
            None => false,
        },
        custom_prompt: raw.custom_prompt,
        max_output_tokens,
        time_window_enabled: match raw.time_window_enabled {
            Some(b) => b,
            None => false,
        },
        time_window_start: raw.time_window_start,
        time_window_end: raw.time_window_end,
        fallback_times,
        startup_delay_minutes,
        execution_mode,
        confirm_timeout_minutes,
    };
    assert(n.weekly_days@ == match raw0.weekly_days {
        Some(d) => if d@.len() > 0 {
            d@
        } else {
            seq![1i32, 2, 3, 4, 5]
        },
        None => seq![1i32, 2, 3, 4, 5],
    });
    n
}

/// What `apply_state` makes of one task input.
pub open spec fn task_from(input: WakeupTaskInput, t: WakeupTask) -> bool {
    &&& t.id@ == input.id@
    &&& t.name@ == input.name@
    &&& t.enabled == input.enabled
    &&& t.last_run_at == input.last_run_at
    &&& normalized_from(input.schedule, t.schedule)
    &&& t.execution_mode@ == t.schedule.execution_mode@
    &&& t.confirm_timeout_minutes == t.schedule.confirm_timeout_minutes
}

/// A task with its schedule normalized.
pub fn task_from_input(input: WakeupTaskInput) -> (t: WakeupTask)
    ensures
        task_from(input, t),
{
    let normalized = normalize_schedule(input.schedule);
    let execution_mode = normalized.execution_mode.clone();
    let confirm_timeout_minutes = normalized.confirm_timeout_minutes;
    WakeupTask {
        id: input.id,
        name: input.name,
        enabled: input.enabled,
        last_run_at: input.last_run_at,
        schedule: normalized,
        execution_mode,
        confirm_timeout_minutes,
    }
}

/// A copy of a normalized schedule.
pub fn clone_schedule(s: &ScheduleConfigNormalized) -> (r: ScheduleConfigNormalized)
    ensures
        same_schedule(r, *s),
{
    ScheduleConfigNormalized {
        repeat_mode: s.repeat_mode.clone(),
        daily_times: clone_strings(&s.daily_times),
        weekly_days: clone_i32s(&s.weekly_days),
        weekly_times: clone_strings(&s.weekly_times),
        interval_hours: s.interval_hours,
        interval_start_time: s.interval_start_time.clone(),
        interval_end_time: s.interval_end_time.clone(),
        selected_models: clone_strings(&s.selected_models),
        selected_accounts: clone_strings(&s.selected_accounts),
        crontab: clone_opt_string(&s.crontab),
        wake_on_reset: s.wake_on_reset,
        custom_prompt: clone_opt_string(&s.custom_prompt),
        max_output_tokens: s.max_output_tokens,
        time_window_enabled: s.time_window_enabled,
        time_window_start: clone_opt_string(&s.time_window_start),
        time_window_end: clone_opt_string(&s.time_window_end),
        fallback_times: clone_strings(&s.fallback_times),
        startup_delay_minutes: s.startup_delay_minutes,
        execution_mode: s.execution_mode.clone(),
        confirm_timeout_minutes: s.confirm_timeout_minutes,
    }
}

/// A copy of a task.
pub fn clone_task(t: &WakeupTask) -> (r: WakeupTask)
    ensures
        same_task(r, *t),
{
    WakeupTask {
        id: t.id.clone(),
        name: t.name.clone(),
        enabled: t.enabled,
        last_run_at: t.last_run_at,
        schedule: clone_schedule(&t.schedule),
        execution_mode: t.execution_mode.clone(),
        confirm_timeout_minutes: t.confirm_timeout_minutes,
    }
}

/// `normalize_max_tokens`: a positive limit as is, anything else as 0 (no limit).
pub fn normalize_max_tokens(value: i32) -> (r: u32)
    ensures
        r as int == if value > 0 {
            value as int
        } else {
            0
        },
{
    if value > 0 {
        value as u32
    } else {
        0
    }
}

/// The prompt of a task: its own prompt trimmed, or the default when it has none.
pub open spec fn prompt_spec(custom: Option<Seq<char>>) -> Seq<char> {
    match custom {
        Some(p) => if crate::text::trim(p).len() > 0 {
            crate::text::trim(p)
        } else {
            DEFAULT_PROMPT@
        },
        None => DEFAULT_PROMPT@,
    }
}

/// The prompt that a run of the task sends.
pub fn resolve_prompt(custom_prompt: &Option<String>) -> (r: String)
    ensures
        r@ == prompt_spec(opt_str(*custom_prompt)),
{
    match custom_prompt {
        Some(p) => {
            let t = crate::text::trimmed(p.as_str());
            if t.len() > 0 {
                crate::text::string_of(&t)
            } else {
                DEFAULT_PROMPT.to_string()
            }
        },
        None => DEFAULT_PROMPT.to_string(),
    }
}

/// The trigger source of a manual run: blank means a startup run.
pub fn resolve_trigger_source(trigger_source: &str) -> (r: String)
    ensures
        r@ == if crate::text::trim(trigger_source@).len() == 0 {
            "startup"@
        } else {
            crate::text::trim(trigger_source@)
        },
{
    let t = crate::text::trimmed(trigger_source);
    if t.len() == 0 {
        "startup".to_string()
    } else {
        crate::text::string_of(&t)
    }
}

} // verus!
