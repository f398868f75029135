//! The execute-then-cleanup driver, as a state machine. The caller performs
//! the outside work (spawning the external tool, deleting a file) and feeds
//! each result back; this module decides, verified, what happens next:
//! commands run strictly in order, the first failure stops execution,
//! cleanup then attempts every staged path regardless of individual
//! deletion failures, and the reported verdict is the execution outcome
//! alone.
use vstd::prelude::*;

verus! {

/// What became of one invocation of the external tool.
#[derive(Debug, Clone, Copy, PartialEq, Eq)]
pub enum CommandOutcome {
    /// The process ran and exited successfully.
    Success,
    /// The process ran and exited unsuccessfully, with this exit code (when
    /// the platform reports one).
    Failed { code: Option<i32> },
    /// The process could not be launched at all.
    LaunchError,
}

/// Why the batch failed.
#[derive(Debug, Clone, Copy, PartialEq, Eq)]
pub enum ExecError {
    /// The external tool could not be launched.
    LaunchFailure,
    /// The external tool exited unsuccessfully, with this exit code.
    CommandFailed { code: Option<i32> },
}

/// What the caller must do next.
#[derive(Debug, Clone, Copy, PartialEq, Eq, Structural)]
pub enum PendingAction {
    /// Run the command plan at this index and report its outcome.
    RunCommand { index: usize },
    /// Attempt to delete the staged path at this index and report whether
    /// the deletion succeeded.
    DeleteFile { index: usize },
    /// The batch is over; ask for the verdict.
    Finished,
}

/// The state of one batch: the command plans and staged paths it was
/// started with, how far execution and cleanup have come, the first
/// execution failure if any, and the staged paths whose deletion failed.
pub struct BatchExecution {
    pub plans: Vec<Vec<String>>,
    pub temp_files: Vec<String>,
    pub next_plan: usize,
    pub next_temp: usize,
    pub executing: bool,
    pub failure: Option<ExecError>,
    pub failed_deletes: Vec<String>,
}

impl BatchExecution {
    /// Internal consistency: progress counters stay in range, and while
    /// commands are still being run nothing has failed and no cleanup has
    /// begun.
    pub open spec fn wf(&self) -> bool {
        &&& self.next_plan <= self.plans@.len()
        &&& self.next_temp <= self.temp_files@.len()
        &&& (self.executing ==> self.next_plan < self.plans@.len() && self.failure is None
            && self.next_temp == 0)
    }

    /// Whether every command has been dealt with and every staged path
    /// attempted.
    pub open spec fn finished(&self) -> bool {
        !self.executing && self.next_temp == self.temp_files@.len()
    }

    /// What the machine asks for in a given state.
    pub open spec fn spec_next_action(&self) -> PendingAction {
        if self.executing {
            PendingAction::RunCommand { index: self.next_plan }
        } else if self.next_temp < self.temp_files@.len() {
            PendingAction::DeleteFile { index: self.next_temp }
        } else {
            PendingAction::Finished
        }
    }

    /// A fresh batch: execution starts at the first plan (or, with no plans
    /// at all, the batch goes straight to cleaning the given staged paths —
    /// the route a caller takes when staging itself failed).
    pub fn new(plans: Vec<Vec<String>>, temp_files: Vec<String>) -> (m: BatchExecution)
        ensures
            m.wf(),
            m.plans == plans,
            m.temp_files == temp_files,
            m.next_plan == 0,
            m.next_temp == 0,
            m.executing == (plans@.len() > 0),
            m.failure is None,
            m.failed_deletes@.len() == 0,
    {
        let executing = plans.len() > 0;
        BatchExecution {
            plans,
            temp_files,
            next_plan: 0,
            next_temp: 0,
            executing,
            failure: Option::None,
            failed_deletes: Vec::new(),
        }
    }

    /// The next thing the caller must do.
    pub fn next_action(&self) -> (a: PendingAction)
        ensures
            a == self.spec_next_action(),
    {
        if self.executing {
            PendingAction::RunCommand { index: self.next_plan }
        } else if self.next_temp < self.temp_files.len() {
            PendingAction::DeleteFile { index: self.next_temp }
        } else {
            PendingAction::Finished
        }
    }

    /// Record what became of the command the machine asked for. Success
    /// moves on to the next plan (or, after the last one, to cleanup); any
    /// failure stops execution at once — the remaining plans are never
    /// asked for — and is kept as the batch verdict.
    pub fn record_command(&mut self, outcome: CommandOutcome)
        requires
            old(self).wf(),
            old(self).executing,
        ensures
            final(self).wf(),
            final(self).plans == old(self).plans,
            final(self).temp_files == old(self).temp_files,
            final(self).next_temp == old(self).next_temp,
            final(self).failed_deletes == old(self).failed_deletes,
            match outcome {
                CommandOutcome::Success => {
                    &&& final(self).next_plan == old(self).next_plan + 1
                    &&& final(self).failure is None
                    &&& final(self).executing == (old(self).next_plan + 1 < old(
                        self,
                    ).plans@.len())
                },
                CommandOutcome::Failed { code } => {
                    &&& final(self).next_plan == old(self).next_plan
                    &&& final(self).failure == Option::Some(ExecError::CommandFailed { code })
                    &&& !final(self).executing
                },
                CommandOutcome::LaunchError => {
                    &&& final(self).next_plan == old(self).next_plan
                    &&& final(self).failure == Option::Some(ExecError::LaunchFailure)
                    &&& !final(self).executing
                },
            },
    {
        match outcome {
            CommandOutcome::Success => {
                let n = self.plans.len();
                self.next_plan = self.next_plan + 1;
                self.executing = self.next_plan < n;
            },
            CommandOutcome::Failed { code } => {
                self.failure = Option::Some(ExecError::CommandFailed { code });
                self.executing = false;
            },
            CommandOutcome::LaunchError => {
                self.failure = Option::Some(ExecError::LaunchFailure);
                self.executing = false;
            },
        }
    }

    /// Record whether the staged path the machine asked about could be
    /// deleted. Cleanup advances to the next staged path either way — a
    /// failed deletion is only remembered, never escalated — and the batch
    /// verdict is untouched.
    pub fn record_delete(&mut self, deleted: bool)
        requires
            old(self).wf(),
            !old(self).executing,
            old(self).next_temp < old(self).temp_files@.len(),
        ensures
            final(self).wf(),
            final(self).plans == old(self).plans,
            final(self).temp_files == old(self).temp_files,
            final(self).next_plan == old(self).next_plan,
            final(self).failure == old(self).failure,
            !final(self).executing,
            final(self).next_temp == old(self).next_temp + 1,
            final(self).failed_deletes@ == if deleted {
                old(self).failed_deletes@
            } else {
                old(self).failed_deletes@.push(old(self).temp_files@[old(self).next_temp as int])
            },
            cleanup_abs(*final(self)) == cleanup_step(cleanup_abs(*old(self)), deleted),
    {
        let n = self.temp_files.len();
        proof {
            assert(self.next_temp < n);
        }
        if !deleted {
            let p = self.temp_files[self.next_temp].clone();
            self.failed_deletes.push(p);
        }
        self.next_temp = self.next_temp + 1;
    }

    /// The verdict of a finished batch: the execution outcome, regardless
    /// of how many deletions failed.
    pub fn outcome(&self) -> (r: Result<(), ExecError>)
        requires
            self.wf(),
            self.finished(),
        ensures
            match self.failure {
                Option::Some(e) => r == Result::<(), ExecError>::Err(e),
                Option::None => r == Result::<(), ExecError>::Ok(()),
            },
    {
        match &self.failure {
            Option::Some(e) => Result::Err(*e),
            Option::None => Result::Ok(()),
        }
    }
}

/// The cleanup-relevant abstraction of a batch state.
pub ghost struct CleanupState {
    pub next_temp: int,
    pub n_temps: int,
    pub failure: Option<ExecError>,
    pub n_failed_deletes: int,
}

pub open spec fn cleanup_abs(m: BatchExecution) -> CleanupState {
    CleanupState {
        next_temp: m.next_temp as int,
        n_temps: m.temp_files@.len() as int,
        failure: m.failure,
        n_failed_deletes: m.failed_deletes@.len() as int,
    }
}

/// One cleanup step: the next staged path is attempted whatever became of
/// the previous ones, and the verdict is untouched.
pub open spec fn cleanup_step(s: CleanupState, deleted: bool) -> CleanupState {
    CleanupState {
        next_temp: s.next_temp + 1,
        n_temps: s.n_temps,
        failure: s.failure,
        n_failed_deletes: s.n_failed_deletes + (if deleted {
            0int
        } else {
            1int
        }),
    }
}

/// The cleanup phase driven through a whole sequence of deletion results.
pub open spec fn cleanup_run(s: CleanupState, results: Seq<bool>) -> CleanupState
    decreases results.len(),
{
    if results.len() == 0 {
        s
    } else {
        cleanup_run(cleanup_step(s, results[0]), results.skip(1))
    }
}

/// Cleanup runs to completion: for every possible sequence of per-path
/// deletion results — failures included — the machine attempts every
/// remaining staged path, and the batch verdict it will report is exactly
/// the one execution left behind, never a cleanup error.
pub proof fn lemma_cleanup_runs_to_completion(s: CleanupState, results: Seq<bool>)
    requires
        0 <= s.next_temp <= s.n_temps,
        results.len() == s.n_temps - s.next_temp,
    ensures
        cleanup_run(s, results).next_temp == s.n_temps,
        cleanup_run(s, results).failure == s.failure,
    decreases results.len(),
{
    if results.len() > 0 {
        lemma_cleanup_runs_to_completion(cleanup_step(s, results[0]), results.skip(1));
    }
}

/// Once execution is over — in particular after a failed command — the
/// machine never again asks for a command to run: the remaining plans are
/// skipped for good.
pub proof fn lemma_no_commands_after_failure(m: BatchExecution)
    requires
        m.wf(),
        m.failure is Some,
    ensures
        !(m.spec_next_action() is RunCommand),
{
}

/// A finished batch has attempted the deletion of every staged path.
pub proof fn lemma_finished_attempted_every_path(m: BatchExecution)
    requires
        m.wf(),
        m.finished(),
    ensures
        m.next_temp == m.temp_files@.len(),
{
}

} // verus!
