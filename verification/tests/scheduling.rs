use cockpit_tools::cron::{
    crontab_matches_time, is_in_time_window, parse_cron_field, parse_crontab_expression,
    parse_time_to_minutes, validate_crontab_expression,
};
use cockpit_tools::quota_reset::{handle_quota_reset_task, select_quota_accounts, ModelQuota, QuotaAccount};
use cockpit_tools::scheduler::{mark_reset_triggered, should_trigger_on_reset, sync_state, ResetState, SchedulerState};
use cockpit_tools::wakeup::{ScheduleConfig, WakeupTaskInput};
use cockpit_tools::wakeup::{normalize_max_tokens, resolve_prompt, resolve_trigger_source};

#[test]
fn crontab_expressions_parse_and_match() {
    let expr = parse_crontab_expression("*/15 9-17 * * 1-5").unwrap();
    assert!(crontab_matches_time(&expr, 30, 10, 3, 6, 2));
    assert!(!crontab_matches_time(&expr, 31, 10, 3, 6, 2));
    assert!(!crontab_matches_time(&expr, 30, 18, 3, 6, 2));
    assert!(!crontab_matches_time(&expr, 30, 10, 3, 6, 0));
    assert!(validate_crontab_expression("0 8 * * *").is_ok());
    assert!(validate_crontab_expression("0 8 * *").is_err());
    assert!(validate_crontab_expression("61 8 * * *").is_err());
}

#[test]
fn weekday_seven_is_sunday() {
    let field = parse_cron_field("7", 0, 7, true, "星期").unwrap();
    assert!(field.contains(0));
    assert!(!field.contains(7));
    let expr = parse_crontab_expression("0 0 * * 7").unwrap();
    assert!(crontab_matches_time(&expr, 0, 0, 14, 5, 0));
}

#[test]
fn day_of_month_or_week_when_both_are_restricted() {
    let expr = parse_crontab_expression("0 0 1 * 1").unwrap();
    assert!(crontab_matches_time(&expr, 0, 0, 1, 5, 4));
    assert!(crontab_matches_time(&expr, 0, 0, 2, 5, 1));
    assert!(!crontab_matches_time(&expr, 0, 0, 2, 5, 2));
}

#[test]
fn time_windows() {
    assert_eq!(parse_time_to_minutes(" 08:30 "), Some(510));
    assert_eq!(parse_time_to_minutes("24:00"), None);
    let start = "22:00".to_string();
    let end = "06:00".to_string();
    assert!(is_in_time_window(Some(&start), Some(&end), 23 * 60));
    assert!(is_in_time_window(Some(&start), Some(&end), 60));
    assert!(!is_in_time_window(Some(&start), Some(&end), 12 * 60));
    assert!(is_in_time_window(None, Some(&end), 12 * 60));
}

#[test]
fn reset_triggers_once_per_reset() {
    let mut state = ResetState::new();
    let t0: i64 = 1_800_000_000_000;
    assert!(!should_trigger_on_reset(&mut state, "m", "2026-01-01T00:00:00Z", 99, t0));
    assert!(should_trigger_on_reset(&mut state, "m", "2026-01-01T00:00:00Z", 100, t0));
    mark_reset_triggered(&mut state, "m", "2026-01-01T00:00:00Z", t0);
    assert!(!should_trigger_on_reset(&mut state, "m", "2026-01-01T00:00:00Z", 100, t0 + 3_600_000));
    assert!(!should_trigger_on_reset(&mut state, "m", "2026-02-01T00:00:00Z", 100, t0 + 60_000));
    assert!(should_trigger_on_reset(&mut state, "m", "2026-02-01T00:00:00Z", 100, t0 + 600_000));
}

#[test]
fn wakeup_defaults() {
    assert_eq!(resolve_prompt(&None), "hi");
    assert_eq!(resolve_prompt(&Some("  hello ".to_string())), "hello");
    assert_eq!(resolve_trigger_source("  "), "startup");
    assert_eq!(resolve_trigger_source(" manual "), "manual");
    assert_eq!(normalize_max_tokens(0), 0);
    assert_eq!(normalize_max_tokens(512), 512);
}

fn reset_task(window: Option<(&str, &str)>, fallback: Vec<&str>) -> WakeupTaskInput {
    WakeupTaskInput {
        id: "task-reset".to_string(),
        name: "reset".to_string(),
        enabled: true,
        last_run_at: None,
        schedule: ScheduleConfig {
            repeat_mode: "daily".to_string(),
            daily_times: None,
            weekly_days: None,
            weekly_times: None,
            interval_hours: None,
            interval_start_time: None,
            interval_end_time: None,
            selected_models: vec!["model-a".to_string(), "model-b".to_string()],
            selected_accounts: vec!["A@Example.com".to_string(), "missing@example.com".to_string()],
            crontab: None,
            wake_on_reset: Some(true),
            custom_prompt: None,
            max_output_tokens: None,
            time_window_enabled: Some(window.is_some()),
            time_window_start: window.map(|w| w.0.to_string()),
            time_window_end: window.map(|w| w.1.to_string()),
            fallback_times: Some(fallback.into_iter().map(|t| t.to_string()).collect()),
            startup_delay_minutes: None,
            execution_mode: None,
            confirm_timeout_minutes: None,
        },
    }
}

fn quota(name: &str, reset: &str, percentage: i32) -> ModelQuota {
    ModelQuota { name: name.to_string(), reset_time: reset.to_string(), percentage }
}

fn watched_accounts() -> Vec<QuotaAccount> {
    vec![
        QuotaAccount { email: "b@example.com".to_string(), models: vec![quota("model-a", "2026-01-01T00:00:00Z", 100)] },
        QuotaAccount {
            email: "a@example.com".to_string(),
            models: vec![quota("model-b", "2026-01-01T05:00:00Z", 100), quota("model-a", "2026-01-01T00:00:00Z", 40)],
        },
    ]
}

#[test]
fn quota_reset_task_selects_accounts_by_email_ignoring_case() {
    let accounts = watched_accounts();
    let selected = vec!["A@EXAMPLE.com".to_string(), "nobody@example.com".to_string(), "b@example.com".to_string()];
    assert_eq!(select_quota_accounts(&selected, &accounts), vec![1, 0]);
}

#[test]
fn quota_reset_task_runs_for_models_that_reset() {
    let mut state = SchedulerState::new();
    sync_state(&mut state, true, vec![reset_task(None, vec![])]);
    let t0: i64 = 1_800_000_000_000;
    let models = handle_quota_reset_task(&mut state, 0, &watched_accounts(), 12 * 60, t0);
    // model-a shows 40% left on the selected account, so only model-b resets.
    assert_eq!(models, vec!["model-b".to_string()]);
    // The same reset does not run the task twice.
    let again = handle_quota_reset_task(&mut state, 0, &watched_accounts(), 12 * 60, t0 + 3_600_000);
    assert!(again.is_empty());
}

#[test]
fn quota_reset_task_waits_for_its_window_or_fallback_time() {
    let mut state = SchedulerState::new();
    sync_state(&mut state, true, vec![reset_task(Some(("08:00", "09:00")), vec!["13:30"])]);
    let t0: i64 = 1_800_000_000_000;
    assert!(handle_quota_reset_task(&mut state, 0, &watched_accounts(), 12 * 60, t0).is_empty());
    assert_eq!(handle_quota_reset_task(&mut state, 0, &watched_accounts(), 13 * 60 + 30, t0), vec!["model-b".to_string()]);
}
