use proxy_pulse::config::{CheckerConfig, SourcesConfig};
use proxy_pulse::scheduler::{ScheduledTask, TaskAction};

fn take(task: &mut ScheduledTask, n: usize) -> Vec<TaskAction> {
    (0..n).map(|_| task.next_action()).collect()
}

#[test]
fn source_sync_runs_at_start_then_every_tick() {
    let config = SourcesConfig { sync_interval_secs: 600, providers: Vec::new() };
    let mut task = ScheduledTask::source_sync(&config);
    assert_eq!(
        take(&mut task, 10),
        vec![
            TaskAction::SyncProviders,
            TaskAction::SyncSubscriptions,
            TaskAction::StartTicker { period_secs: 600 },
            TaskAction::WaitTick,
            TaskAction::WaitTick,
            TaskAction::SyncProviders,
            TaskAction::SyncSubscriptions,
            TaskAction::WaitTick,
            TaskAction::SyncProviders,
            TaskAction::SyncSubscriptions,
        ]
    );
}

#[test]
fn checker_waits_then_checks_every_tick() {
    let config = CheckerConfig { interval_secs: 30, timeout_secs: 10, max_concurrent: 50, targets: Vec::new() };
    let mut task = ScheduledTask::proxy_check(&config);
    assert_eq!(
        take(&mut task, 6),
        vec![
            TaskAction::Sleep { secs: 5 },
            TaskAction::StartTicker { period_secs: 30 },
            TaskAction::WaitTick,
            TaskAction::RunCheckCycle,
            TaskAction::WaitTick,
            TaskAction::RunCheckCycle,
        ]
    );
}

#[test]
fn cleanup_runs_daily_with_a_week_of_logs_kept() {
    let mut task = ScheduledTask::log_cleanup();
    assert_eq!(
        take(&mut task, 5),
        vec![
            TaskAction::StartTicker { period_secs: 86400 },
            TaskAction::WaitTick,
            TaskAction::CleanupLogs { retention_days: 7 },
            TaskAction::WaitTick,
            TaskAction::CleanupLogs { retention_days: 7 },
        ]
    );
}

#[test]
fn source_sync_keeps_its_cycle_over_many_ticks() {
    let config = SourcesConfig { sync_interval_secs: 60, providers: Vec::new() };
    let mut task = ScheduledTask::source_sync(&config);
    let actions = take(&mut task, 4 + 3 * 50);
    for k in 0..50 {
        assert_eq!(actions[4 + 3 * k], TaskAction::WaitTick);
        assert_eq!(actions[5 + 3 * k], TaskAction::SyncProviders);
        assert_eq!(actions[6 + 3 * k], TaskAction::SyncSubscriptions);
    }
}

#[test]
fn checker_and_cleanup_keep_their_cycles() {
    let config = CheckerConfig { interval_secs: 1, timeout_secs: 1, max_concurrent: 1, targets: Vec::new() };
    let mut check = ScheduledTask::proxy_check(&config);
    let actions = take(&mut check, 2 + 2 * 40);
    for k in 0..40 {
        assert_eq!(actions[2 + 2 * k], TaskAction::WaitTick);
        assert_eq!(actions[3 + 2 * k], TaskAction::RunCheckCycle);
    }
    let mut cleanup = ScheduledTask::log_cleanup();
    let actions = take(&mut cleanup, 1 + 2 * 40);
    for k in 0..40 {
        assert_eq!(actions[1 + 2 * k], TaskAction::WaitTick);
        assert_eq!(actions[2 + 2 * k], TaskAction::CleanupLogs { retention_days: 7 });
    }
}
