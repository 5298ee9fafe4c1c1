use vstd::prelude::*;

use crate::config::{CheckerConfig, SourcesConfig};

verus! {

/// One step of a background task, carried out by the caller.
#[derive(Debug, Clone, Copy, PartialEq, Eq, Structural)]
pub enum TaskAction {
    /// Sync the proxy lists of the configured providers.
    SyncProviders,
    /// Sync the subscription sources kept in the database.
    SyncSubscriptions,
    /// Start the task's ticker with this period; its first tick is due at once.
    StartTicker { period_secs: u64 },
    /// Wait for the ticker's next tick.
    WaitTick,
    /// Sleep for this long.
    Sleep { secs: u64 },
    /// Check the proxies that are due.
    RunCheckCycle,
    /// Delete check logs older than this many days.
    CleanupLogs { retention_days: u64 },
}

/// The three background tasks.
#[derive(Debug, Clone, Copy, PartialEq, Eq, Structural)]
pub enum TaskKind {
    SourceSync,
    ProxyCheck,
    LogCleanup,
}

/// Seconds the checker waits before its first cycle, so that the first sync
/// can fill the pool.
pub const CHECKER_START_DELAY_SECS: u64 = 5;

/// Period of the log cleanup: one day.
pub const CLEANUP_PERIOD_SECS: u64 = 86400;

/// Age in days past which check logs are deleted.
pub const LOG_RETENTION_DAYS: u64 = 7;

/// The actions of a task in order: a start-up part, then a part that repeats
/// forever from the index given second.
pub open spec fn program(kind: TaskKind, period_secs: u64) -> (Seq<TaskAction>, int) {
    match kind {
        TaskKind::SourceSync => (
            seq![
                TaskAction::SyncProviders,
                TaskAction::SyncSubscriptions,
                TaskAction::StartTicker { period_secs },
                TaskAction::WaitTick,
                TaskAction::WaitTick,
                TaskAction::SyncProviders,
                TaskAction::SyncSubscriptions,
            ],
            4,
        ),
        TaskKind::ProxyCheck => (
            seq![
                TaskAction::Sleep { secs: CHECKER_START_DELAY_SECS },
                TaskAction::StartTicker { period_secs },
                TaskAction::WaitTick,
                TaskAction::RunCheckCycle,
            ],
            2,
        ),
        TaskKind::LogCleanup => (
            seq![
                TaskAction::StartTicker { period_secs: CLEANUP_PERIOD_SECS },
                TaskAction::WaitTick,
                TaskAction::CleanupLogs { retention_days: LOG_RETENTION_DAYS },
            ],
            1,
        ),
    }
}

/// The position that follows `pc` in the program of a task.
pub open spec fn next_position(kind: TaskKind, period_secs: u64, pc: int) -> int {
    if pc + 1 == program(kind, period_secs).0.len() {
        program(kind, period_secs).1
    } else {
        pc + 1
    }
}

/// The position of a task after its first `n` actions.
pub open spec fn position_after(kind: TaskKind, period_secs: u64, n: nat) -> int
    decreases n,
{
    if n == 0 {
        0
    } else {
        next_position(kind, period_secs, position_after(kind, period_secs, (n - 1) as nat))
    }
}

/// The action a task takes at step `n`, counting from zero.
pub open spec fn action_at_step(kind: TaskKind, period_secs: u64, n: nat) -> TaskAction {
    program(kind, period_secs).0[position_after(kind, period_secs, n)]
}

/// A background task: which one, its period, and where it stands in its program.
pub struct ScheduledTask {
    kind: TaskKind,
    period_secs: u64,
    pc: usize,
    steps: Ghost<nat>,
}

impl ScheduledTask {
    #[verifier::type_invariant]
    spec fn well_formed(self) -> bool {
        &&& self.pc < program(self.kind, self.period_secs).0.len()
        &&& self.pc == position_after(self.kind, self.period_secs, self.steps@)
    }

    /// Which task this is.
    pub closed spec fn kind_spec(self) -> TaskKind {
        self.kind
    }

    /// The task's period in seconds (the cleanup task keeps its own).
    pub closed spec fn period_spec(self) -> u64 {
        self.period_secs
    }

    /// How many actions the task has taken.
    pub closed spec fn steps_spec(self) -> nat {
        self.steps@
    }

    /// The index of the next action in the task's program.
    pub closed spec fn position(self) -> int {
        self.pc as int
    }

    /// The task that syncs the proxy lists: once at start, then on every tick
    /// of a ticker with the configured sync period (its first, immediate tick
    /// skipped).
    pub fn source_sync(config: &SourcesConfig) -> (res: Self)
        ensures
            res.kind_spec() == TaskKind::SourceSync,
            res.period_spec() == config.sync_interval_secs,
            res.position() == 0,
            res.steps_spec() == 0,
    {
        ScheduledTask { kind: TaskKind::SourceSync, period_secs: config.sync_interval_secs, pc: 0, steps: Ghost(0) }
    }

    /// The task that checks proxies: after a short delay, on every tick of a
    /// ticker with the configured check period.
    pub fn proxy_check(config: &CheckerConfig) -> (res: Self)
        ensures
            res.kind_spec() == TaskKind::ProxyCheck,
            res.period_spec() == config.interval_secs,
            res.position() == 0,
            res.steps_spec() == 0,
    {
        ScheduledTask { kind: TaskKind::ProxyCheck, period_secs: config.interval_secs, pc: 0, steps: Ghost(0) }
    }

    /// The task that deletes old check logs, once a day.
    pub fn log_cleanup() -> (res: Self)
        ensures
            res.kind_spec() == TaskKind::LogCleanup,
            res.period_spec() == CLEANUP_PERIOD_SECS,
            res.position() == 0,
            res.steps_spec() == 0,
    {
        ScheduledTask { kind: TaskKind::LogCleanup, period_secs: CLEANUP_PERIOD_SECS, pc: 0, steps: Ghost(0) }
    }

    /// The next action of the task; the task moves on to the one after it,
    /// going back to the start of the repeating part after its end.
    pub fn next_action(&mut self) -> (res: TaskAction)
        ensures
            final(self).kind_spec() == old(self).kind_spec(),
            final(self).period_spec() == old(self).period_spec(),
            res == program(old(self).kind_spec(), old(self).period_spec()).0[old(self).position()],
            final(self).position() == next_position(
                old(self).kind_spec(),
                old(self).period_spec(),
                old(self).position(),
            ),
            0 <= final(self).position() < program(final(self).kind_spec(), final(self).period_spec()).0.len(),
            res == action_at_step(old(self).kind_spec(), old(self).period_spec(), old(self).steps_spec()),
            final(self).steps_spec() == old(self).steps_spec() + 1,
    {
        proof {
            use_type_invariant(&*self);
        }
        let period_secs = self.period_secs;
        let pc = self.pc;
        let (action, len, loop_start): (TaskAction, usize, usize) = match self.kind {
            TaskKind::SourceSync => {
                let a = if pc == 0 || pc == 5 {
                    TaskAction::SyncProviders
                } else if pc == 1 || pc == 6 {
                    TaskAction::SyncSubscriptions
                } else if pc == 2 {
                    TaskAction::StartTicker { period_secs }
                } else {
                    TaskAction::WaitTick
                };
                (a, 7, 4)
            },
            TaskKind::ProxyCheck => {
                let a = if pc == 0 {
                    TaskAction::Sleep { secs: CHECKER_START_DELAY_SECS }
                } else if pc == 1 {
                    TaskAction::StartTicker { period_secs }
                } else if pc == 2 {
                    TaskAction::WaitTick
                } else {
                    TaskAction::RunCheckCycle
                };
                (a, 4, 2)
            },
            TaskKind::LogCleanup => {
                let a = if pc == 0 {
                    TaskAction::StartTicker { period_secs: CLEANUP_PERIOD_SECS }
                } else if pc == 1 {
                    TaskAction::WaitTick
                } else {
                    TaskAction::CleanupLogs { retention_days: LOG_RETENTION_DAYS }
                };
                (a, 3, 1)
            },
        };
        let next = if pc + 1 == len {
            loop_start
        } else {
            pc + 1
        };
        *self = ScheduledTask { kind: self.kind, period_secs, pc: next, steps: Ghost(self.steps@ + 1) };
        action
    }
}

/// In every program the repeating part starts inside the program, so that a
/// task never runs out of actions, and once a task has reached the repeating
/// part it stays there.
pub proof fn law_tasks_repeat(kind: TaskKind, period_secs: u64, pc: int)
    requires
        0 <= pc < program(kind, period_secs).0.len(),
    ensures
        0 <= program(kind, period_secs).1 < program(kind, period_secs).0.len(),
        0 <= next_position(kind, period_secs, pc) < program(kind, period_secs).0.len(),
        pc >= program(kind, period_secs).1 ==> next_position(kind, period_secs, pc) >= program(
            kind,
            period_secs,
        ).1,
{
}

/// The sync task syncs the subscription sources right after every sync of the
/// configured providers, at start-up and in every cycle.
pub proof fn law_subscriptions_follow_providers(period_secs: u64, pc: int)
    requires
        0 <= pc < program(TaskKind::SourceSync, period_secs).0.len(),
        program(TaskKind::SourceSync, period_secs).0[pc] == TaskAction::SyncProviders,
    ensures
        program(TaskKind::SourceSync, period_secs).0[next_position(
            TaskKind::SourceSync,
            period_secs,
            pc,
        )] == TaskAction::SyncSubscriptions,
{
}

/// Every cycle of a task's repeating part starts by waiting for the next tick
/// of its ticker, so that the work of a cycle is paced by the ticker.
pub proof fn law_cycles_wait_for_ticks(kind: TaskKind, period_secs: u64)
    ensures
        program(kind, period_secs).0[program(kind, period_secs).1] == TaskAction::WaitTick,
{
}

proof fn lemma_position_step(kind: TaskKind, period_secs: u64, n: nat)
    ensures
        position_after(kind, period_secs, n + 1) == next_position(
            kind,
            period_secs,
            position_after(kind, period_secs, n),
        ),
{
}

proof fn lemma_source_sync_cycle(period_secs: u64, k: nat)
    ensures
        position_after(TaskKind::SourceSync, period_secs, 4 + 3 * k) == 4,
    decreases k,
{
    let kind = TaskKind::SourceSync;
    if k == 0 {
        lemma_position_step(kind, period_secs, 0);
        lemma_position_step(kind, period_secs, 1);
        lemma_position_step(kind, period_secs, 2);
        lemma_position_step(kind, period_secs, 3);
    } else {
        let j = (k - 1) as nat;
        lemma_source_sync_cycle(period_secs, j);
        lemma_position_step(kind, period_secs, 4 + 3 * j);
        lemma_position_step(kind, period_secs, 5 + 3 * j);
        lemma_position_step(kind, period_secs, 6 + 3 * j);
        assert(4 + 3 * k == 7 + 3 * j);
    }
}

/// The sync task syncs the configured providers and then the subscription
/// sources at start, starts a ticker with the configured period, lets its
/// immediate first tick pass, and then, in every cycle `k`, waits for a tick
/// and syncs the providers and then the subscriptions, forever.
pub proof fn law_source_sync_schedule(period_secs: u64, k: nat)
    ensures
        action_at_step(TaskKind::SourceSync, period_secs, 0) == TaskAction::SyncProviders,
        action_at_step(TaskKind::SourceSync, period_secs, 1) == TaskAction::SyncSubscriptions,
        action_at_step(TaskKind::SourceSync, period_secs, 2) == (TaskAction::StartTicker {
            period_secs,
        }),
        action_at_step(TaskKind::SourceSync, period_secs, 3) == TaskAction::WaitTick,
        action_at_step(TaskKind::SourceSync, period_secs, 4 + 3 * k) == TaskAction::WaitTick,
        action_at_step(TaskKind::SourceSync, period_secs, 5 + 3 * k) == TaskAction::SyncProviders,
        action_at_step(TaskKind::SourceSync, period_secs, 6 + 3 * k)
            == TaskAction::SyncSubscriptions,
{
    let kind = TaskKind::SourceSync;
    lemma_position_step(kind, period_secs, 0);
    lemma_position_step(kind, period_secs, 1);
    lemma_position_step(kind, period_secs, 2);
    lemma_source_sync_cycle(period_secs, k);
    lemma_position_step(kind, period_secs, 4 + 3 * k);
    lemma_position_step(kind, period_secs, 5 + 3 * k);
}

proof fn lemma_proxy_check_cycle(period_secs: u64, k: nat)
    ensures
        position_after(TaskKind::ProxyCheck, period_secs, 2 + 2 * k) == 2,
    decreases k,
{
    let kind = TaskKind::ProxyCheck;
    if k == 0 {
        lemma_position_step(kind, period_secs, 0);
        lemma_position_step(kind, period_secs, 1);
    } else {
        let j = (k - 1) as nat;
        lemma_proxy_check_cycle(period_secs, j);
        lemma_position_step(kind, period_secs, 2 + 2 * j);
        lemma_position_step(kind, period_secs, 3 + 2 * j);
        assert(2 + 2 * k == 4 + 2 * j);
    }
}

/// The check task sleeps five seconds, starts a ticker with the configured
/// period, and then, in every cycle `k`, waits for a tick and runs a check
/// cycle, forever; the first tick is immediate, so the first check comes right
/// after the sleep.
pub proof fn law_proxy_check_schedule(period_secs: u64, k: nat)
    ensures
        action_at_step(TaskKind::ProxyCheck, period_secs, 0) == (TaskAction::Sleep {
            secs: CHECKER_START_DELAY_SECS,
        }),
        CHECKER_START_DELAY_SECS == 5,
        action_at_step(TaskKind::ProxyCheck, period_secs, 1) == (TaskAction::StartTicker {
            period_secs,
        }),
        action_at_step(TaskKind::ProxyCheck, period_secs, 2 + 2 * k) == TaskAction::WaitTick,
        action_at_step(TaskKind::ProxyCheck, period_secs, 3 + 2 * k) == TaskAction::RunCheckCycle,
{
    let kind = TaskKind::ProxyCheck;
    lemma_position_step(kind, period_secs, 0);
    lemma_proxy_check_cycle(period_secs, k);
    lemma_position_step(kind, period_secs, 2 + 2 * k);
}

proof fn lemma_log_cleanup_cycle(period_secs: u64, k: nat)
    ensures
        position_after(TaskKind::LogCleanup, period_secs, 1 + 2 * k) == 1,
    decreases k,
{
    let kind = TaskKind::LogCleanup;
    if k == 0 {
        lemma_position_step(kind, period_secs, 0);
    } else {
        let j = (k - 1) as nat;
        lemma_log_cleanup_cycle(period_secs, j);
        lemma_position_step(kind, period_secs, 1 + 2 * j);
        lemma_position_step(kind, period_secs, 2 + 2 * j);
        assert(1 + 2 * k == 3 + 2 * j);
    }
}

/// The cleanup task starts a daily ticker and then, in every cycle `k`, waits
/// for a tick and deletes the check logs older than seven days, forever; the
/// first tick is immediate, so the first cleanup comes at start.
pub proof fn law_log_cleanup_schedule(period_secs: u64, k: nat)
    ensures
        action_at_step(TaskKind::LogCleanup, period_secs, 0) == (TaskAction::StartTicker {
            period_secs: CLEANUP_PERIOD_SECS,
        }),
        CLEANUP_PERIOD_SECS == 86400,
        action_at_step(TaskKind::LogCleanup, period_secs, 1 + 2 * k) == TaskAction::WaitTick,
        action_at_step(TaskKind::LogCleanup, period_secs, 2 + 2 * k) == (TaskAction::CleanupLogs {
            retention_days: LOG_RETENTION_DAYS,
        }),
        LOG_RETENTION_DAYS == 7,
{
    let kind = TaskKind::LogCleanup;
    lemma_log_cleanup_cycle(period_secs, k);
    lemma_position_step(kind, period_secs, 1 + 2 * k);
}

} // verus!
