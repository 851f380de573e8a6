//! The parallel build driver: one state machine per compile task, advanced
//! by a single-threaded cooperative poll loop.
//!
//! Each task walks `Pending → TokenRequested → TokenAcquired → ChildSpawned
//! → Draining → Completed`. Transitions happen only through the event
//! methods here; the embedding program performs the operating-system work
//! each step asks for (spawn the child, poll its exit status, read its
//! error stream) and reports the outcome back as a plain value.
//!
//! The driver owns the token pool. A task holds a token from the moment the
//! pool grants one until the task reaches its terminal state, so the number
//! of live children never exceeds the number of tokens handed out — and,
//! with the in-process pool, never exceeds the pool's capacity.

use vstd::prelude::*;
use vstd::string::StringExecFns;
use vstd::string::StringSliceAdditionalSpecFns;

use crate::error::{Error, ErrorKind};
use crate::pool::{
    AcquireDecision, ActiveJobTokenServer, AcquireStep, HelperPoll, JobToken, JobTokenServer,
    TokenReturn, failure_of, in_process_wf, spec_acquire_decision, spec_acquired, spec_released,
};
use crate::strutil::{join_strings, spec_join};

verus! {

/// Where one compile task stands.
#[derive(Clone, Copy, Debug, PartialEq, Eq, Structural)]
pub enum TaskState {
    /// Created, nothing done yet.
    Pending,
    /// Waiting for the pool to grant a token.
    TokenRequested,
    /// Holds a token; the child process is not spawned yet.
    TokenAcquired,
    /// Holds a token; the child process is running.
    ChildSpawned,
    /// Holds a token; the child has exited and its error stream is being
    /// drained of whatever bytes remain.
    Draining,
    /// Terminal: the outcome is recorded and the token is given back.
    Completed,
}

/// How a completed task ended.
#[derive(Debug, PartialEq, Eq)]
pub enum TaskOutcome {
    /// The child ran and exited successfully.
    Success,
    /// The task was skipped because its output is already up to date.
    UpToDate,
    /// The task was never started: an earlier task failed and the driver is
    /// not running in best-effort mode.
    NotRun,
    /// The task failed; the error says how.
    Failure { error: Error },
}

/// The child's exit, as recorded while the task drains.
#[derive(Debug, PartialEq, Eq)]
pub struct RecordedExit {
    /// Whether the exit status was zero.
    pub success: bool,
    /// The exit status, rendered for messages.
    pub status: String,
}

/// One file to compile, with the run-time state of its task.
pub struct CompileTask {
    /// The source file.
    pub src: String,
    /// The object file to produce.
    pub dst: String,
    /// The compiler command line, program first.
    pub command: Vec<String>,
    /// Where the task stands.
    pub state: TaskState,
    /// The token the task holds while it occupies a concurrency slot.
    pub token: Option<JobToken>,
    /// The child's exit, once observed.
    pub exit: Option<RecordedExit>,
    /// Everything drained from the child's error stream so far.
    pub stderr: Vec<u8>,
    /// How the task ended, once it has.
    pub outcome: Option<TaskOutcome>,
}

/// Whether the task currently occupies a concurrency slot.
pub open spec fn holds_token(t: CompileTask) -> bool {
    t.token is Some
}

/// Whether the task's child process is alive right now.
pub open spec fn is_running(t: CompileTask) -> bool {
    t.state is ChildSpawned
}

/// Whether the task ended in failure.
pub open spec fn task_failed(t: CompileTask) -> bool {
    t.outcome matches Some(TaskOutcome::Failure { .. })
}

/// A task's own invariant: it holds a token exactly in the three states
/// that occupy a slot, it has a recorded exit while draining, and it has an
/// outcome exactly when it is done.
pub open spec fn task_wf(t: CompileTask) -> bool {
    &&& holds_token(t) <==> (t.state is TokenAcquired || t.state is ChildSpawned
        || t.state is Draining)
    &&& t.state is Draining ==> t.exit is Some
    &&& t.state is Completed <==> t.outcome is Some
}

/// How many tasks of `s` satisfy `f`.
pub open spec fn count_where(s: Seq<CompileTask>, f: spec_fn(CompileTask) -> bool) -> int
    decreases s.len(),
{
    if s.len() == 0 {
        0
    } else {
        count_where(s.drop_last(), f) + if f(s.last()) {
            1int
        } else {
            0int
        }
    }
}

/// How many tasks currently hold a token.
pub open spec fn tokens_held(s: Seq<CompileTask>) -> int {
    count_where(s, |t: CompileTask| holds_token(t))
}

/// How many children are alive right now.
pub open spec fn running_count(s: Seq<CompileTask>) -> int {
    count_where(s, |t: CompileTask| is_running(t))
}

/// A count is never negative.
pub proof fn lemma_count_where_nonneg(s: Seq<CompileTask>, f: spec_fn(CompileTask) -> bool)
    ensures
        count_where(s, f) >= 0,
    decreases s.len(),
{
    if s.len() > 0 {
        lemma_count_where_nonneg(s.drop_last(), f);
    }
}

/// Replacing one task changes a count by the difference the two tasks make.
pub proof fn lemma_count_where_update(
    s: Seq<CompileTask>,
    f: spec_fn(CompileTask) -> bool,
    i: int,
    t: CompileTask,
)
    requires
        0 <= i < s.len(),
    ensures
        count_where(s.update(i, t), f) == count_where(s, f) + (if f(t) {
            1int
        } else {
            0int
        }) - (if f(s[i]) {
            1int
        } else {
            0int
        }),
    decreases s.len(),
{
    if i == s.len() - 1 {
        assert(s.update(i, t).drop_last() =~= s.drop_last());
        assert(s.update(i, t).last() == t);
    } else {
        assert(s.update(i, t).drop_last() =~= s.drop_last().update(i, t));
        assert(s.update(i, t).last() == s.last());
        lemma_count_where_update(s.drop_last(), f, i, t);
    }
}

/// Appending one task adds its own contribution to a count.
pub proof fn lemma_count_where_push(
    s: Seq<CompileTask>,
    f: spec_fn(CompileTask) -> bool,
    t: CompileTask,
)
    ensures
        count_where(s.push(t), f) == count_where(s, f) + (if f(t) {
            1int
        } else {
            0int
        }),
{
    assert(s.push(t).drop_last() =~= s);
    assert(s.push(t).last() == t);
}

/// A count of a stronger property never exceeds a count of a weaker one.
pub proof fn lemma_count_where_le(
    s: Seq<CompileTask>,
    f: spec_fn(CompileTask) -> bool,
    g: spec_fn(CompileTask) -> bool,
)
    requires
        forall|i: int| 0 <= i < s.len() ==> (f(#[trigger] s[i]) ==> g(s[i])),
    ensures
        count_where(s, f) <= count_where(s, g),
    decreases s.len(),
{
    if s.len() > 0 {
        assert(forall|i: int|
            0 <= i < s.drop_last().len() ==> (f(#[trigger] s.drop_last()[i]) ==> g(
                s.drop_last()[i],
            )));
        lemma_count_where_le(s.drop_last(), f, g);
        assert(s.last() == s[s.len() - 1]);
    }
}

/// A task that satisfies `f` makes the count at least one.
pub proof fn lemma_count_where_at_least_one(
    s: Seq<CompileTask>,
    f: spec_fn(CompileTask) -> bool,
    i: int,
)
    requires
        0 <= i < s.len(),
        f(s[i]),
    ensures
        count_where(s, f) >= 1,
    decreases s.len(),
{
    lemma_count_where_nonneg(s.drop_last(), f);
    if i < s.len() - 1 {
        lemma_count_where_at_least_one(s.drop_last(), f, i);
    } else {
        assert(s.last() == s[i]);
    }
}

/// The driver: the queued tasks, the pool they draw tokens from, and the
/// failure policy.
pub struct ParallelDriver {
    /// The compile tasks, in the order they were queued.
    pub tasks: Vec<CompileTask>,
    /// The token pool, in its active (build-running) state.
    pub pool: ActiveJobTokenServer,
    /// Keep starting new tasks after a failure, collecting every failure,
    /// instead of only finishing what already runs.
    pub best_effort: bool,
    /// Whether some task has already failed.
    pub failed: bool,
}

/// The driver's invariant: every task is well formed, and with the
/// in-process pool the free slots plus the tokens held by tasks add up to
/// exactly the pool's capacity — slots are neither leaked nor counted
/// twice.
pub open spec fn driver_wf(d: ParallelDriver) -> bool {
    &&& forall|i: int| 0 <= i < d.tasks@.len() ==> task_wf(#[trigger] d.tasks@[i])
    &&& (d.pool.server matches JobTokenServer::InProcess { server: p } ==> in_process_wf(p)
        && p.spec_available() + tokens_held(d.tasks@) == p.spec_capacity())
}

/// Whether the driver may still start tasks that have not run yet.
pub open spec fn spec_may_start_new(d: ParallelDriver) -> bool {
    !d.failed || d.best_effort
}

/// What the poll loop should do for one task on this turn.
#[derive(Clone, Copy, Debug, PartialEq, Eq, Structural)]
pub enum Action {
    /// Poll the pool for a token (the task has none yet).
    PollToken,
    /// An earlier failure stops new work: record the task as not run.
    Cancel,
    /// Spawn the task's child process, with its error stream piped and
    /// placed in non-blocking mode.
    Spawn,
    /// Poll the child: check its exit status without blocking, and drain
    /// whatever its error stream holds.
    PollChild,
    /// The child has exited: drain the bytes that remain, then finish.
    PollDrain,
    /// The task is done; nothing to do.
    Done,
}

/// What advancing a waiting task decided.
#[derive(Debug, PartialEq, Eq)]
pub enum TokenStep {
    /// The pool granted a token; the task may spawn.
    Started,
    /// The acquisition failed for good; the task is completed as failed.
    TokenFailed,
    /// The helper thread must be told to request one token, then the task
    /// polls again next turn.
    RequestToken,
    /// Nothing granted yet; poll again next turn.
    Wait,
}

/// The pool decision a token step embodies.
pub open spec fn spec_token_step_decision(r: TokenStep) -> AcquireDecision {
    match r {
        TokenStep::Started => AcquireDecision::Grant,
        TokenStep::TokenFailed => AcquireDecision::Fail,
        TokenStep::RequestToken => AcquireDecision::Request,
        TokenStep::Wait => AcquireDecision::Wait,
    }
}

impl ParallelDriver {
    /// A driver over the given pool with no tasks queued yet.
    ///
    /// The pool must be fresh: every slot of an in-process pool is free, so
    /// the slot accounting starts balanced.
    pub fn new(pool: ActiveJobTokenServer, best_effort: bool) -> (d: ParallelDriver)
        requires
            pool.server matches JobTokenServer::InProcess { server: p } ==> p.spec_available()
                == p.spec_capacity(),
        ensures
            driver_wf(d),
            d.tasks@.len() == 0,
            d.pool == pool,
            d.best_effort == best_effort,
            !d.failed,
    {
        let d = ParallelDriver { tasks: Vec::new(), pool, best_effort, failed: false };
        proof {
            assert(tokens_held(d.tasks@) == 0);
        }
        d
    }

    /// Queue one file to compile.
    pub fn push_task(&mut self, src: String, dst: String, command: Vec<String>)
        requires
            driver_wf(*old(self)),
        ensures
            driver_wf(*final(self)),
            final(self).tasks@.len() == old(self).tasks@.len() + 1,
            final(self).tasks@.last().src@ == src@,
            final(self).tasks@.last().dst@ == dst@,
            final(self).tasks@.last().command == command,
            final(self).tasks@.last().state is Pending,
            final(self).tasks@.drop_last() == old(self).tasks@,
            final(self).pool == old(self).pool,
            final(self).failed == old(self).failed,
            final(self).best_effort == old(self).best_effort,
            tokens_held(final(self).tasks@) == tokens_held(old(self).tasks@),
            running_count(final(self).tasks@) == running_count(old(self).tasks@),
    {
        let task = CompileTask {
            src,
            dst,
            command,
            state: TaskState::Pending,
            token: None,
            exit: None,
            stderr: Vec::new(),
            outcome: None,
        };
        proof {
            lemma_count_where_push(self.tasks@, |t: CompileTask| holds_token(t), task);
            lemma_count_where_push(self.tasks@, |t: CompileTask| is_running(t), task);
        }
        self.tasks.push(task);
    }

    /// How many tasks are queued.
    pub fn len(&self) -> (n: usize)
        ensures
            n == self.tasks@.len(),
    {
        self.tasks.len()
    }

    /// What the poll loop should do for task `i` on this turn.
    pub fn next_action(&self, i: usize) -> (a: Action)
        requires
            i < self.tasks@.len(),
        ensures
            a is PollToken <==> ((self.tasks@[i as int].state is Pending
                || self.tasks@[i as int].state is TokenRequested) && spec_may_start_new(*self)),
            a is Cancel <==> ((self.tasks@[i as int].state is Pending
                || self.tasks@[i as int].state is TokenRequested) && !spec_may_start_new(*self)),
            a is Spawn <==> self.tasks@[i as int].state is TokenAcquired,
            a is PollChild <==> self.tasks@[i as int].state is ChildSpawned,
            a is PollDrain <==> self.tasks@[i as int].state is Draining,
            a is Done <==> self.tasks@[i as int].state is Completed,
    {
        match self.tasks[i].state {
            TaskState::Pending | TaskState::TokenRequested => {
                if !self.failed || self.best_effort {
                    Action::PollToken
                } else {
                    Action::Cancel
                }
            },
            TaskState::TokenAcquired => Action::Spawn,
            TaskState::ChildSpawned => Action::PollChild,
            TaskState::Draining => Action::PollDrain,
            TaskState::Completed => Action::Done,
        }
    }

    /// One scheduler turn for a task that is waiting on a token.
    ///
    /// `helper` is what the embedding program took off the jobserver helper
    /// queue this turn (always `Empty` for the in-process pool, whose
    /// grants come straight from the counter); the pool folds the
    /// observation in before deciding, so nothing taken off the queue is
    /// lost. On a grant the task moves to `TokenAcquired` and holds the
    /// token; on a final failure the task completes as failed with exactly
    /// the pool's error; else the task stays waiting in `TokenRequested`.
    /// Which of the four it is follows the pool's own decision rule.
    pub fn poll_token(&mut self, i: usize, helper: HelperPoll) -> (r: TokenStep)
        requires
            driver_wf(*old(self)),
            i < old(self).tasks@.len(),
            old(self).tasks@[i as int].state is Pending || old(self).tasks@[i as int].state is TokenRequested,
            old(self).pool.banked_grants < u32::MAX,
        ensures
            driver_wf(*final(self)),
            final(self).tasks@.len() == old(self).tasks@.len(),
            final(self).best_effort == old(self).best_effort,
            forall|j: int|
                0 <= j < old(self).tasks@.len() && j != i ==> final(self).tasks@[j] == old(self).tasks@[j],
            final(self).tasks@[i as int].src == old(self).tasks@[i as int].src,
            final(self).tasks@[i as int].dst == old(self).tasks@[i as int].dst,
            final(self).tasks@[i as int].command == old(self).tasks@[i as int].command,
            final(self).tasks@[i as int].stderr == old(self).tasks@[i as int].stderr,
            spec_token_step_decision(r) == spec_acquire_decision(old(self).pool, helper),
            r is Started ==> final(self).tasks@[i as int].state is TokenAcquired && final(self).failed == old(self).failed,
            r is TokenFailed ==> (final(self).tasks@[i as int].state is Completed && (final(self).tasks@[i as int].outcome matches Some(TaskOutcome::Failure { error })
                && failure_of(error, old(self).pool, helper)) && final(self).failed),
            r is RequestToken || r is Wait ==> (final(self).tasks@[i as int].state is TokenRequested && final(self).failed == old(self).failed
                && final(self).pool.server == old(self).pool.server),
            running_count(final(self).tasks@) == running_count(old(self).tasks@),
    {
        let ghost pre = *self;
        let ghost held = |t: CompileTask| holds_token(t);
        let ghost running = |t: CompileTask| is_running(t);
        let step = self.pool.acquire_poll(helper);
        match step {
            AcquireStep::Acquired { token } => {
                let task = &mut self.tasks[i];
                task.token = Some(token);
                task.state = TaskState::TokenAcquired;
                proof {
                    lemma_count_where_update(pre.tasks@, held, i as int, self.tasks@[i as int]);
                    lemma_count_where_update(pre.tasks@, running, i as int, self.tasks@[i as int]);
                }
                TokenStep::Started
            },
            AcquireStep::Failed { error } => {
                self.failed = true;
                let task = &mut self.tasks[i];
                task.state = TaskState::Completed;
                task.outcome = Some(TaskOutcome::Failure { error });
                proof {
                    lemma_count_where_update(pre.tasks@, held, i as int, self.tasks@[i as int]);
                    lemma_count_where_update(pre.tasks@, running, i as int, self.tasks@[i as int]);
                }
                TokenStep::TokenFailed
            },
            AcquireStep::RequestToken => {
                let task = &mut self.tasks[i];
                task.state = TaskState::TokenRequested;
                proof {
                    lemma_count_where_update(pre.tasks@, held, i as int, self.tasks@[i as int]);
                    lemma_count_where_update(pre.tasks@, running, i as int, self.tasks@[i as int]);
                }
                TokenStep::RequestToken
            },
            AcquireStep::Wait => {
                let task = &mut self.tasks[i];
                task.state = TaskState::TokenRequested;
                proof {
                    lemma_count_where_update(pre.tasks@, held, i as int, self.tasks@[i as int]);
                    lemma_count_where_update(pre.tasks@, running, i as int, self.tasks@[i as int]);
                }
                TokenStep::Wait
            },
        }
    }

    /// Close a task that must not start because an earlier one failed.
    pub fn cancel_task(&mut self, i: usize)
        requires
            driver_wf(*old(self)),
            i < old(self).tasks@.len(),
            old(self).tasks@[i as int].state is Pending || old(self).tasks@[i as int].state is TokenRequested,
            !spec_may_start_new(*old(self)),
        ensures
            driver_wf(*final(self)),
            final(self).tasks@ == old(self).tasks@.update(
                i as int,
                final(self).tasks@[i as int],
            ),
            final(self).tasks@[i as int].state is Completed,
            final(self).tasks@[i as int].outcome == Some(TaskOutcome::NotRun),
            final(self).pool == old(self).pool,
            final(self).failed == old(self).failed,
            final(self).best_effort == old(self).best_effort,
            running_count(final(self).tasks@) == running_count(old(self).tasks@),
    {
        let ghost pre = *self;
        let task = &mut self.tasks[i];
        task.state = TaskState::Completed;
        task.outcome = Some(TaskOutcome::NotRun);
        proof {
            lemma_count_where_update(
                pre.tasks@,
                |t: CompileTask| holds_token(t),
                i as int,
                self.tasks@[i as int],
            );
            lemma_count_where_update(
                pre.tasks@,
                |t: CompileTask| is_running(t),
                i as int,
                self.tasks@[i as int],
            );
        }
    }

    /// Close a task whose output is already fresh: no child is spawned
    /// for it and no token is requested.
    pub fn skip_task(&mut self, i: usize)
        requires
            driver_wf(*old(self)),
            i < old(self).tasks@.len(),
            old(self).tasks@[i as int].state is Pending,
        ensures
            driver_wf(*final(self)),
            final(self).tasks@ == old(self).tasks@.update(
                i as int,
                final(self).tasks@[i as int],
            ),
            final(self).tasks@[i as int].state is Completed,
            final(self).tasks@[i as int].outcome == Some(TaskOutcome::UpToDate),
            final(self).pool == old(self).pool,
            final(self).failed == old(self).failed,
            final(self).best_effort == old(self).best_effort,
            running_count(final(self).tasks@) == running_count(old(self).tasks@),
    {
        let ghost pre = *self;
        let task = &mut self.tasks[i];
        task.state = TaskState::Completed;
        task.outcome = Some(TaskOutcome::UpToDate);
        proof {
            lemma_count_where_update(
                pre.tasks@,
                |t: CompileTask| holds_token(t),
                i as int,
                self.tasks@[i as int],
            );
            lemma_count_where_update(
                pre.tasks@,
                |t: CompileTask| is_running(t),
                i as int,
                self.tasks@[i as int],
            );
        }
    }

    /// The child process for task `i` was spawned, its error stream piped
    /// and placed in non-blocking mode.
    pub fn on_spawned(&mut self, i: usize)
        requires
            driver_wf(*old(self)),
            i < old(self).tasks@.len(),
            old(self).tasks@[i as int].state is TokenAcquired,
        ensures
            driver_wf(*final(self)),
            final(self).tasks@ == old(self).tasks@.update(
                i as int,
                final(self).tasks@[i as int],
            ),
            final(self).tasks@[i as int].state is ChildSpawned,
            final(self).tasks@[i as int].src == old(self).tasks@[i as int].src,
            final(self).tasks@[i as int].command == old(self).tasks@[i as int].command,
            final(self).tasks@[i as int].stderr == old(self).tasks@[i as int].stderr,
            final(self).pool == old(self).pool,
            final(self).failed == old(self).failed,
            final(self).best_effort == old(self).best_effort,
            running_count(final(self).tasks@) == running_count(old(self).tasks@) + 1,
    {
        let ghost pre = *self;
        let task = &mut self.tasks[i];
        task.state = TaskState::ChildSpawned;
        proof {
            lemma_count_where_update(
                pre.tasks@,
                |t: CompileTask| holds_token(t),
                i as int,
                self.tasks@[i as int],
            );
            lemma_count_where_update(
                pre.tasks@,
                |t: CompileTask| is_running(t),
                i as int,
                self.tasks@[i as int],
            );
        }
    }

    /// Give task `i`'s token back to the pool. Internal: callers are the
    /// completion events below.
    fn return_token(&mut self, i: usize) -> (r: TokenReturn)
        requires
            driver_wf(*old(self)),
            i < old(self).tasks@.len(),
            holds_token(old(self).tasks@[i as int]),
        ensures
            final(self).tasks@ == old(self).tasks@.update(
                i as int,
                final(self).tasks@[i as int],
            ),
            !holds_token(final(self).tasks@[i as int]),
            final(self).tasks@[i as int] == (CompileTask {
                token: None,
                ..old(self).tasks@[i as int]
            }),
            final(self).failed == old(self).failed,
            final(self).best_effort == old(self).best_effort,
            (final(self).pool.server matches JobTokenServer::InProcess { server: q } ==> (old(self).pool.server matches JobTokenServer::InProcess { server: p } && spec_released(p, q))),
            (old(self).pool.server matches JobTokenServer::InProcess { server: p } ==> final(self).pool.server matches JobTokenServer::InProcess { server: q }),
            (old(self).pool.server matches JobTokenServer::Inherited { server: h } ==> final(self).pool.server matches JobTokenServer::Inherited { server: g }),
            tokens_held(final(self).tasks@) == tokens_held(old(self).tasks@) - 1,
            running_count(final(self).tasks@) == running_count(old(self).tasks@),
    {
        let ghost pre = *self;
        proof {
            if pre.pool.server is InProcess {
                lemma_count_where_at_least_one(
                    pre.tasks@,
                    |t: CompileTask| holds_token(t),
                    i as int,
                );
            }
        }
        let token_opt = self.tasks[i].token.take();
        proof {
            lemma_count_where_update(
                pre.tasks@,
                |t: CompileTask| holds_token(t),
                i as int,
                self.tasks@[i as int],
            );
            lemma_count_where_update(
                pre.tasks@,
                |t: CompileTask| is_running(t),
                i as int,
                self.tasks@[i as int],
            );
        }
        match token_opt {
            Some(token) => self.pool.release_token(token),
            None => vstd::pervasive::unreached(),
        }
    }
}


/// The program a command line names: its first word, or nothing for an
/// empty command.
pub open spec fn spec_command_program(command: Seq<Seq<char>>) -> Seq<char> {
    if command.len() > 0 {
        command[0]
    } else {
        Seq::empty()
    }
}

/// The message recorded when a tool cannot be spawned: the missing-tool
/// case names the program, any other spawn failure carries the
/// operating-system error text.
pub open spec fn spec_spawn_failure_message(
    program: Seq<char>,
    os_error: Seq<char>,
    not_found: bool,
) -> Seq<char> {
    if not_found {
        "failed to find tool `"@ + program + "`: is it installed?"@
    } else {
        "command `"@ + program + "` failed to start: "@ + os_error
    }
}

/// The message recorded when a tool ran but exited unsuccessfully.
pub open spec fn spec_tool_exec_message(command: Seq<Seq<char>>, status: Seq<char>) -> Seq<char> {
    "command `"@ + spec_join(command, " "@) + "` did not execute successfully ("@ + status + ")"@
}

/// The message recorded when the child's error stream could not be placed
/// in non-blocking mode.
pub open spec fn spec_setup_failure_message(os_error: Seq<char>) -> Seq<char> {
    "failed to set up the child's error stream: "@ + os_error
}

/// The message recorded when waiting on a spawned child itself failed.
pub open spec fn spec_wait_failure_message(os_error: Seq<char>) -> Seq<char> {
    "failed to wait on spawned child process: "@ + os_error
}

/// The message recorded when reading the child's error stream failed.
pub open spec fn spec_drain_failure_message(os_error: Seq<char>) -> Seq<char> {
    "failed to drain the child's error stream: "@ + os_error
}

/// The indices of the tasks among the first `n` that ended in failure, in
/// queue order.
pub open spec fn spec_failed_indices(s: Seq<CompileTask>, n: int) -> Seq<int>
    decreases n,
{
    if n <= 0 {
        Seq::empty()
    } else {
        spec_failed_indices(s, n - 1) + if task_failed(s[n - 1]) {
            seq![n - 1]
        } else {
            Seq::empty()
        }
    }
}

/// The failed-index list holds exactly the indices of failed tasks.
pub proof fn lemma_failed_indices_exact(s: Seq<CompileTask>, n: int)
    requires
        0 <= n <= s.len(),
    ensures
        forall|k: int|
            0 <= k < spec_failed_indices(s, n).len() ==> 0 <= #[trigger] spec_failed_indices(
                s,
                n,
            )[k] < n && task_failed(s[spec_failed_indices(s, n)[k]]),
        forall|i: int| 0 <= i < n && task_failed(#[trigger] s[i]) ==> spec_failed_indices(
            s,
            n,
        ).contains(i),
    decreases n,
{
    if n > 0 {
        lemma_failed_indices_exact(s, n - 1);
        assert forall|i: int| 0 <= i < n && task_failed(#[trigger] s[i]) implies
            spec_failed_indices(s, n).contains(i) by {
            if i < n - 1 {
                let k = choose|k: int|
                    0 <= k < spec_failed_indices(s, n - 1).len() && #[trigger] spec_failed_indices(
                        s,
                        n - 1,
                    )[k] == i;
                assert(spec_failed_indices(s, n)[k] == i);
            } else {
                assert(spec_failed_indices(s, n).last() == i);
            }
        }
    }
}

/// The report for the tasks among the first `n`: one entry per failed
/// task, and nothing else.
pub open spec fn spec_failure_report(s: Seq<CompileTask>, n: int) -> Seq<u8>
    decreases n,
{
    if n <= 0 {
        Seq::empty()
    } else {
        spec_failure_report(s, n - 1) + spec_report_entry(s[n - 1])
    }
}

/// One failed task's entry in the report: the source file, a separating
/// colon and space, the recorded error (which names the command), a line
/// break, then the diagnostic text captured from the child's error stream,
/// and a closing line break. A task that did not fail contributes nothing.
pub open spec fn spec_report_entry(t: CompileTask) -> Seq<u8> {
    match t.outcome {
        Some(TaskOutcome::Failure { error }) => vstd::utf8::encode_utf8(t.src@) + seq![58u8, 32u8]
            + vstd::utf8::encode_utf8(error.message@) + seq![10u8] + t.stderr@ + seq![10u8],
        _ => Seq::empty(),
    }
}

impl ParallelDriver {
    /// Spawning the child for task `i` failed before it ever ran.
    ///
    /// A missing executable (`not_found`) is recorded as `ToolNotFound`, so
    /// the caller can tell an absent tool from a failing one; any other
    /// spawn error is `ToolExecError`. The task completes, its token goes
    /// back to the pool, and the driver notes the failure.
    pub fn on_spawn_failed(&mut self, i: usize, not_found: bool, os_error: String) -> (r:
        TokenReturn)
        requires
            driver_wf(*old(self)),
            i < old(self).tasks@.len(),
            old(self).tasks@[i as int].state is TokenAcquired,
        ensures
            driver_wf(*final(self)),
            final(self).tasks@.len() == old(self).tasks@.len(),
            forall|j: int|
                0 <= j < old(self).tasks@.len() && j != i ==> final(self).tasks@[j] == old(self).tasks@[j],
            final(self).tasks@[i as int].state is Completed,
            final(self).tasks@[i as int].outcome matches Some(TaskOutcome::Failure { error })
                && error.kind == (if not_found {
                ErrorKind::ToolNotFound
            } else {
                ErrorKind::ToolExecError
            }) && error.message@ == spec_spawn_failure_message(
                spec_command_program(old(self).tasks@[i as int].command@.map_values(|c: String| c@)),
                os_error@,
                not_found,
            ),
            final(self).failed,
            final(self).best_effort == old(self).best_effort,
            running_count(final(self).tasks@) == running_count(old(self).tasks@),
            tokens_held(final(self).tasks@) == tokens_held(old(self).tasks@) - 1,
    {
        let ghost pre = *self;
        let kind = if not_found {
            ErrorKind::ToolNotFound
        } else {
            ErrorKind::ToolExecError
        };
        let program: &str = if self.tasks[i].command.len() > 0 {
            self.tasks[i].command[0].as_str()
        } else {
            ""
        };
        proof {
            reveal_strlit("");
            assert(program@ =~= spec_command_program(
                pre.tasks@[i as int].command@.map_values(|c: String| c@),
            ));
        }
        let mut message = String::new();
        if not_found {
            message.append("failed to find tool `");
            message.append(program);
            message.append("`: is it installed?");
        } else {
            message.append("command `");
            message.append(program);
            message.append("` failed to start: ");
            message.append(os_error.as_str());
        }
        proof {
            assert(message@ =~= spec_spawn_failure_message(
                spec_command_program(pre.tasks@[i as int].command@.map_values(|c: String| c@)),
                os_error@,
                not_found,
            ));
        }
        let ret = self.return_token(i);
        let ghost mid = *self;
        self.failed = true;
        let task = &mut self.tasks[i];
        task.state = TaskState::Completed;
        task.outcome = Some(TaskOutcome::Failure { error: Error::new(kind, message) });
        proof {
            lemma_count_where_update(
                mid.tasks@,
                |t: CompileTask| holds_token(t),
                i as int,
                self.tasks@[i as int],
            );
            lemma_count_where_update(
                mid.tasks@,
                |t: CompileTask| is_running(t),
                i as int,
                self.tasks@[i as int],
            );
        }
        ret
    }

    /// Placing the child's error stream in non-blocking mode failed at
    /// spawn time. The task fails at once with an input/output error — a
    /// blocking read on one child's stream would stall every other task the
    /// single-threaded scheduler polls — its token goes back, and the
    /// driver notes the failure.
    pub fn on_setup_failed(&mut self, i: usize, os_error: String) -> (r: TokenReturn)
        requires
            driver_wf(*old(self)),
            i < old(self).tasks@.len(),
            old(self).tasks@[i as int].state is TokenAcquired,
        ensures
            driver_wf(*final(self)),
            final(self).tasks@.len() == old(self).tasks@.len(),
            forall|j: int|
                0 <= j < old(self).tasks@.len() && j != i ==> final(self).tasks@[j] == old(self).tasks@[j],
            final(self).tasks@[i as int].state is Completed,
            final(self).tasks@[i as int].outcome matches Some(TaskOutcome::Failure { error })
                && error.kind == ErrorKind::IOError && error.message@
                == spec_setup_failure_message(os_error@),
            final(self).failed,
            final(self).best_effort == old(self).best_effort,
            running_count(final(self).tasks@) == running_count(old(self).tasks@),
            tokens_held(final(self).tasks@) == tokens_held(old(self).tasks@) - 1,
    {
        let ghost pre = *self;
        let mut message = String::new();
        message.append("failed to set up the child's error stream: ");
        message.append(os_error.as_str());
        proof {
            assert(message@ =~= spec_setup_failure_message(os_error@));
        }
        let ret = self.return_token(i);
        let ghost mid = *self;
        self.failed = true;
        let task = &mut self.tasks[i];
        task.state = TaskState::Completed;
        task.outcome = Some(
            TaskOutcome::Failure { error: Error::new(ErrorKind::IOError, message) },
        );
        proof {
            lemma_count_where_update(
                mid.tasks@,
                |t: CompileTask| holds_token(t),
                i as int,
                self.tasks@[i as int],
            );
            lemma_count_where_update(
                mid.tasks@,
                |t: CompileTask| is_running(t),
                i as int,
                self.tasks@[i as int],
            );
        }
        ret
    }

    /// Reading the child's error stream failed while the task was being
    /// polled or drained. The task fails at once with an input/output
    /// error, its token goes back, and the driver notes the failure;
    /// whatever was captured so far stays in the task.
    pub fn on_drain_failed(&mut self, i: usize, os_error: String) -> (r: TokenReturn)
        requires
            driver_wf(*old(self)),
            i < old(self).tasks@.len(),
            old(self).tasks@[i as int].state is ChildSpawned || old(self).tasks@[i as int].state is Draining,
        ensures
            driver_wf(*final(self)),
            final(self).tasks@.len() == old(self).tasks@.len(),
            forall|j: int|
                0 <= j < old(self).tasks@.len() && j != i ==> final(self).tasks@[j] == old(self).tasks@[j],
            final(self).tasks@[i as int].state is Completed,
            final(self).tasks@[i as int].stderr == old(self).tasks@[i as int].stderr,
            final(self).tasks@[i as int].outcome matches Some(TaskOutcome::Failure { error })
                && error.kind == ErrorKind::IOError && error.message@
                == spec_drain_failure_message(os_error@),
            final(self).failed,
            final(self).best_effort == old(self).best_effort,
            running_count(final(self).tasks@) == running_count(old(self).tasks@) - (
            if old(self).tasks@[i as int].state is ChildSpawned {
                1int
            } else {
                0int
            }),
            tokens_held(final(self).tasks@) == tokens_held(old(self).tasks@) - 1,
    {
        let ghost pre = *self;
        let mut message = String::new();
        message.append("failed to drain the child's error stream: ");
        message.append(os_error.as_str());
        proof {
            assert(message@ =~= spec_drain_failure_message(os_error@));
        }
        let ret = self.return_token(i);
        let ghost mid = *self;
        self.failed = true;
        let task = &mut self.tasks[i];
        task.state = TaskState::Completed;
        task.outcome = Some(
            TaskOutcome::Failure { error: Error::new(ErrorKind::IOError, message) },
        );
        proof {
            lemma_count_where_update(
                mid.tasks@,
                |t: CompileTask| holds_token(t),
                i as int,
                self.tasks@[i as int],
            );
            lemma_count_where_update(
                mid.tasks@,
                |t: CompileTask| is_running(t),
                i as int,
                self.tasks@[i as int],
            );
        }
        ret
    }

    /// Bytes drained from the child's error stream are appended to the
    /// task's captured diagnostics; nothing is ever dropped.
    pub fn on_stderr_chunk(&mut self, i: usize, chunk: &[u8])
        requires
            driver_wf(*old(self)),
            i < old(self).tasks@.len(),
            old(self).tasks@[i as int].state is ChildSpawned || old(self).tasks@[i as int].state is Draining,
        ensures
            driver_wf(*final(self)),
            final(self).tasks@ == old(self).tasks@.update(i as int, final(self).tasks@[i as int]),
            final(self).tasks@[i as int] == (CompileTask {
                stderr: final(self).tasks@[i as int].stderr,
                ..old(self).tasks@[i as int]
            }),
            final(self).tasks@[i as int].stderr@ == old(self).tasks@[i as int].stderr@ + chunk@,
            final(self).pool == old(self).pool,
            final(self).failed == old(self).failed,
            final(self).best_effort == old(self).best_effort,
            running_count(final(self).tasks@) == running_count(old(self).tasks@),
            tokens_held(final(self).tasks@) == tokens_held(old(self).tasks@),
    {
        let ghost pre = *self;
        let task = &mut self.tasks[i];
        task.stderr.extend_from_slice(chunk);
        proof {
            lemma_count_where_update(
                pre.tasks@,
                |t: CompileTask| holds_token(t),
                i as int,
                self.tasks@[i as int],
            );
            lemma_count_where_update(
                pre.tasks@,
                |t: CompileTask| is_running(t),
                i as int,
                self.tasks@[i as int],
            );
        }
    }

    /// The non-blocking wait observed that the child has exited. The task
    /// keeps its token and moves to draining: remaining bytes may still sit
    /// in the pipe.
    pub fn on_child_exited(&mut self, i: usize, success: bool, status: String)
        requires
            driver_wf(*old(self)),
            i < old(self).tasks@.len(),
            old(self).tasks@[i as int].state is ChildSpawned,
        ensures
            driver_wf(*final(self)),
            final(self).tasks@ == old(self).tasks@.update(i as int, final(self).tasks@[i as int]),
            final(self).tasks@[i as int].state is Draining,
            final(self).tasks@[i as int].exit matches Some(e) && e.success == success && e.status@
                == status@,
            final(self).tasks@[i as int].stderr == old(self).tasks@[i as int].stderr,
            final(self).tasks@[i as int].command == old(self).tasks@[i as int].command,
            final(self).tasks@[i as int].src == old(self).tasks@[i as int].src,
            final(self).pool == old(self).pool,
            final(self).failed == old(self).failed,
            final(self).best_effort == old(self).best_effort,
            running_count(final(self).tasks@) == running_count(old(self).tasks@) - 1,
            tokens_held(final(self).tasks@) == tokens_held(old(self).tasks@),
    {
        let ghost pre = *self;
        let task = &mut self.tasks[i];
        task.state = TaskState::Draining;
        task.exit = Some(RecordedExit { success, status });
        proof {
            lemma_count_where_update(
                pre.tasks@,
                |t: CompileTask| holds_token(t),
                i as int,
                self.tasks@[i as int],
            );
            lemma_count_where_update(
                pre.tasks@,
                |t: CompileTask| is_running(t),
                i as int,
                self.tasks@[i as int],
            );
        }
    }

    /// The wait call on the child itself failed. The task completes as a
    /// `ToolExecError` and its token goes back to the pool.
    pub fn on_wait_failed(&mut self, i: usize, os_error: String) -> (r: TokenReturn)
        requires
            driver_wf(*old(self)),
            i < old(self).tasks@.len(),
            old(self).tasks@[i as int].state is ChildSpawned,
        ensures
            driver_wf(*final(self)),
            final(self).tasks@.len() == old(self).tasks@.len(),
            forall|j: int|
                0 <= j < old(self).tasks@.len() && j != i ==> final(self).tasks@[j] == old(self).tasks@[j],
            final(self).tasks@[i as int].state is Completed,
            final(self).tasks@[i as int].outcome matches Some(TaskOutcome::Failure { error })
                && error.kind == ErrorKind::ToolExecError && error.message@
                == spec_wait_failure_message(os_error@),
            final(self).failed,
            final(self).best_effort == old(self).best_effort,
            running_count(final(self).tasks@) == running_count(old(self).tasks@) - 1,
            tokens_held(final(self).tasks@) == tokens_held(old(self).tasks@) - 1,
    {
        let ghost pre = *self;
        let mut message = String::new();
        message.append("failed to wait on spawned child process: ");
        message.append(os_error.as_str());
        proof {
            assert(message@ =~= spec_wait_failure_message(os_error@));
        }
        let ret = self.return_token(i);
        let ghost mid = *self;
        self.failed = true;
        let task = &mut self.tasks[i];
        task.state = TaskState::Completed;
        task.outcome = Some(
            TaskOutcome::Failure { error: Error::new(ErrorKind::ToolExecError, message) },
        );
        proof {
            lemma_count_where_update(
                mid.tasks@,
                |t: CompileTask| holds_token(t),
                i as int,
                self.tasks@[i as int],
            );
            lemma_count_where_update(
                mid.tasks@,
                |t: CompileTask| is_running(t),
                i as int,
                self.tasks@[i as int],
            );
        }
        ret
    }

    /// The child has exited and its error stream is empty: the task is
    /// finished. A zero exit status succeeds; anything else fails with a
    /// `ToolExecError` naming the command and the status. Either way the
    /// token goes back to the pool before the result is even examined, so a
    /// queued task can take the slot at once.
    pub fn on_drained(&mut self, i: usize) -> (r: TokenReturn)
        requires
            driver_wf(*old(self)),
            i < old(self).tasks@.len(),
            old(self).tasks@[i as int].state is Draining,
        ensures
            driver_wf(*final(self)),
            final(self).tasks@.len() == old(self).tasks@.len(),
            forall|j: int|
                0 <= j < old(self).tasks@.len() && j != i ==> final(self).tasks@[j] == old(self).tasks@[j],
            final(self).tasks@[i as int].state is Completed,
            final(self).tasks@[i as int].stderr == old(self).tasks@[i as int].stderr,
            old(self).tasks@[i as int].exit matches Some(e) && (if e.success {
                final(self).tasks@[i as int].outcome == Some(TaskOutcome::Success) && final(self).failed == old(self).failed
            } else {
                final(self).tasks@[i as int].outcome matches Some(
                    TaskOutcome::Failure { error },
                ) && error.kind == ErrorKind::ToolExecError && error.message@
                    == spec_tool_exec_message(
                    old(self).tasks@[i as int].command@.map_values(|c: String| c@),
                    e.status@,
                ) && final(self).failed
            }),
            final(self).best_effort == old(self).best_effort,
            running_count(final(self).tasks@) == running_count(old(self).tasks@),
            tokens_held(final(self).tasks@) == tokens_held(old(self).tasks@) - 1,
    {
        let ghost pre = *self;
        let success = match &self.tasks[i].exit {
            Some(e) => e.success,
            None => vstd::pervasive::unreached(),
        };
        let outcome = if success {
            TaskOutcome::Success
        } else {
            let mut message = String::new();
            message.append("command `");
            let joined = join_strings(&self.tasks[i].command, " ");
            message.append(joined.as_str());
            message.append("` did not execute successfully (");
            match &self.tasks[i].exit {
                Some(e) => message.append(e.status.as_str()),
                None => vstd::pervasive::unreached(),
            }
            message.append(")");
            proof {
                assert(message@ =~= spec_tool_exec_message(
                    pre.tasks@[i as int].command@.map_values(|c: String| c@),
                    pre.tasks@[i as int].exit->Some_0.status@,
                ));
            }
            self.failed = true;
            TaskOutcome::Failure { error: Error::new(ErrorKind::ToolExecError, message) }
        };
        let ret = self.return_token(i);
        let ghost mid = *self;
        let task = &mut self.tasks[i];
        task.state = TaskState::Completed;
        task.outcome = Some(outcome);
        proof {
            lemma_count_where_update(
                mid.tasks@,
                |t: CompileTask| holds_token(t),
                i as int,
                self.tasks@[i as int],
            );
            lemma_count_where_update(
                mid.tasks@,
                |t: CompileTask| is_running(t),
                i as int,
                self.tasks@[i as int],
            );
        }
        ret
    }

    /// Whether every queued task has reached its terminal state: the
    /// scheduler's termination test.
    pub fn all_completed(&self) -> (r: bool)
        ensures
            r <==> (forall|i: int|
                0 <= i < self.tasks@.len() ==> (#[trigger] self.tasks@[i].state) is Completed),
    {
        let mut i: usize = 0;
        while i < self.tasks.len()
            invariant
                0 <= i <= self.tasks@.len(),
                forall|j: int| 0 <= j < i ==> (#[trigger] self.tasks@[j].state) is Completed,
            decreases self.tasks@.len() - i,
        {
            match self.tasks[i].state {
                TaskState::Completed => {},
                _ => {
                    return false;
                },
            }
            i = i + 1;
        }
        true
    }

    /// The aggregate outcome, once every task is done: success exactly when
    /// no task failed, and otherwise the indices of every failed task, in
    /// queue order — never just the first.
    pub fn aggregate(&self) -> (r: Result<(), Vec<usize>>)
        requires
            forall|i: int|
                0 <= i < self.tasks@.len() ==> (#[trigger] self.tasks@[i].state) is Completed,
        ensures
            r is Ok <==> (forall|i: int|
                0 <= i < self.tasks@.len() ==> !task_failed(#[trigger] self.tasks@[i])),
            r matches Err(v) ==> v@.map_values(|u: usize| u as int) == spec_failed_indices(
                self.tasks@,
                self.tasks@.len() as int,
            ) && v@.len() > 0,
    {
        let mut failed: Vec<usize> = Vec::new();
        let mut i: usize = 0;
        while i < self.tasks.len()
            invariant
                0 <= i <= self.tasks@.len(),
                failed@.map_values(|u: usize| u as int) == spec_failed_indices(
                    self.tasks@,
                    i as int,
                ),
            decreases self.tasks@.len() - i,
        {
            let ghost prefix = spec_failed_indices(self.tasks@, i as int);
            let is_failure = match &self.tasks[i].outcome {
                Some(TaskOutcome::Failure { .. }) => true,
                _ => false,
            };
            if is_failure {
                failed.push(i);
                proof {
                    assert(failed@.map_values(|u: usize| u as int) =~= prefix + seq![i as int]);
                }
            } else {
                proof {
                    assert(spec_failed_indices(self.tasks@, i + 1 as int) =~= prefix);
                }
            }
            i = i + 1;
        }
        proof {
            lemma_failed_indices_exact(self.tasks@, self.tasks@.len() as int);
        }
        if failed.len() == 0 {
            proof {
                assert forall|k: int| 0 <= k < self.tasks@.len() implies !task_failed(
                    #[trigger] self.tasks@[k],
                ) by {
                    if task_failed(self.tasks@[k]) {
                        assert(spec_failed_indices(
                            self.tasks@,
                            self.tasks@.len() as int,
                        ).contains(k));
                    }
                }
            }
            Ok(())
        } else {
            proof {
                let all = spec_failed_indices(self.tasks@, self.tasks@.len() as int);
                assert(all.len() == failed@.len());
                assert(task_failed(self.tasks@[all[0]]));
            }
            Err(failed)
        }
    }

    /// The aggregate failure report, once every task is done: for each
    /// failed file its recorded error — which names the command — and the
    /// full diagnostic text captured from the child, and nothing else. The
    /// report is bytes because the captured diagnostics are bytes, shipped
    /// as they came.
    pub fn failure_report(&self) -> (r: Vec<u8>)
        requires
            forall|i: int|
                0 <= i < self.tasks@.len() ==> (#[trigger] self.tasks@[i].state) is Completed,
        ensures
            r@ == spec_failure_report(self.tasks@, self.tasks@.len() as int),
    {
        let mut r: Vec<u8> = Vec::new();
        let mut i: usize = 0;
        while i < self.tasks.len()
            invariant
                0 <= i <= self.tasks@.len(),
                r@ == spec_failure_report(self.tasks@, i as int),
            decreases self.tasks@.len() - i,
        {
            let ghost prefix = spec_failure_report(self.tasks@, i as int);
            let is_failure = match &self.tasks[i].outcome {
                Some(TaskOutcome::Failure { .. }) => true,
                _ => false,
            };
            if is_failure {
                r.extend_from_slice(self.tasks[i].src.as_str().as_bytes());
                r.push(58);
                r.push(32);
                match &self.tasks[i].outcome {
                    Some(TaskOutcome::Failure { error }) => {
                        r.extend_from_slice(error.message().as_str().as_bytes());
                    },
                    _ => {},
                }
                r.push(10);
                r.extend_from_slice(self.tasks[i].stderr.as_slice());
                r.push(10);
                proof {
                    assert(r@ =~= prefix + spec_report_entry(self.tasks@[i as int]));
                }
            } else {
                proof {
                    assert(spec_report_entry(self.tasks@[i as int]) =~= Seq::<u8>::empty());
                    assert(r@ =~= prefix + spec_report_entry(self.tasks@[i as int]));
                }
            }
            i = i + 1;
        }
        r
    }
}

/// Law: children never outnumber the concurrency budget.
///
/// In every well-formed driver the number of live children is at most the
/// number of tokens held, because each live child's task holds a token.
/// With the in-process pool of capacity C that number is at most C, for
/// every task count: no schedule of events can spawn more than C children
/// at once.
pub proof fn lemma_children_bounded_by_capacity(d: ParallelDriver)
    requires
        driver_wf(d),
    ensures
        running_count(d.tasks@) <= tokens_held(d.tasks@),
        d.pool.server matches JobTokenServer::InProcess { server: p } ==> running_count(d.tasks@)
            <= p.spec_capacity(),
{
    assert forall|i: int|
        0 <= i < d.tasks@.len() implies ((|t: CompileTask| is_running(t))(#[trigger] d.tasks@[i])
        ==> (|t: CompileTask| holds_token(t))(d.tasks@[i])) by {
        assert(task_wf(d.tasks@[i]));
    }
    lemma_count_where_le(
        d.tasks@,
        |t: CompileTask| is_running(t),
        |t: CompileTask| holds_token(t),
    );
}


/// A count over tasks none of which satisfy the property is zero.
pub proof fn lemma_count_where_zero(s: Seq<CompileTask>, f: spec_fn(CompileTask) -> bool)
    requires
        forall|i: int| 0 <= i < s.len() ==> !f(#[trigger] s[i]),
    ensures
        count_where(s, f) == 0,
    decreases s.len(),
{
    if s.len() > 0 {
        assert(forall|i: int| 0 <= i < s.drop_last().len() ==> !f(#[trigger] s.drop_last()[i]));
        lemma_count_where_zero(s.drop_last(), f);
        assert(s.last() == s[s.len() - 1]);
    }
}

/// Law: a finished build holds no tokens.
///
/// Once every task has reached its terminal state, no task holds a token —
/// each slot went back to the pool that issued it, on success and on
/// failure alike — and the in-process pool stands at its full starting
/// capacity again.
pub proof fn lemma_completed_build_returns_all_tokens(d: ParallelDriver)
    requires
        driver_wf(d),
        forall|i: int| 0 <= i < d.tasks@.len() ==> (#[trigger] d.tasks@[i].state) is Completed,
    ensures
        tokens_held(d.tasks@) == 0,
        d.pool.server matches JobTokenServer::InProcess { server: p } ==> p.spec_available()
            == p.spec_capacity(),
{
    assert forall|i: int|
        0 <= i < d.tasks@.len() implies !(|t: CompileTask| holds_token(t))(
        #[trigger] d.tasks@[i],
    ) by {
        assert(task_wf(d.tasks@[i]));
    }
    lemma_count_where_zero(d.tasks@, |t: CompileTask| holds_token(t));
}

} // verus!
