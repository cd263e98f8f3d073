//! The life cycle of a conversion job.
//!
//! A job is created `pending`, becomes `converting` when the worker picks it
//! up and ends `done` or `failed`. A failed job may be retried, which makes
//! it `pending` again; a job found `converting` at startup was interrupted
//! and is made `pending` again too. `skipped` is set from outside the
//! pipeline and is never left.

use crate::text::str_eq;
use vstd::prelude::*;

verus! {

/// Where a conversion job stands.
#[derive(Clone, Copy, Debug, PartialEq, Eq, Structural)]
pub enum JobStatus {
    /// Recorded and waiting for the worker.
    Pending,
    /// Picked up by the worker; the transcoder may be running.
    Converting,
    /// Converted; the output file exists.
    Done,
    /// The conversion ended with an error; the job can be retried.
    Failed,
    /// Set aside by housekeeping; never touched again.
    Skipped,
}

impl JobStatus {
    /// The word under which the status is stored and shown.
    pub open spec fn label(self) -> Seq<char> {
        match self {
            JobStatus::Pending => "pending"@,
            JobStatus::Converting => "converting"@,
            JobStatus::Done => "done"@,
            JobStatus::Failed => "failed"@,
            JobStatus::Skipped => "skipped"@,
        }
    }

    /// A terminal status is one the worker never leaves on its own.
    pub open spec fn terminal(self) -> bool {
        self == JobStatus::Done || self == JobStatus::Failed || self == JobStatus::Skipped
    }

    /// A job in one of these states stands in the way of a second job for
    /// the same source file.
    pub open spec fn blocks_enqueue(self) -> bool {
        self == JobStatus::Pending || self == JobStatus::Converting || self == JobStatus::Done
    }

    /// A job in one of these states was cut short if it is found at startup.
    pub open spec fn interrupted(self) -> bool {
        self == JobStatus::Pending || self == JobStatus::Converting
    }

    /// The transitions the pipeline makes.
    pub open spec fn may_become(self, next: JobStatus) -> bool {
        match (self, next) {
            (JobStatus::Pending, JobStatus::Converting) => true,
            (JobStatus::Converting, JobStatus::Done) => true,
            (JobStatus::Converting, JobStatus::Failed) => true,
            (JobStatus::Failed, JobStatus::Pending) => true,
            (JobStatus::Converting, JobStatus::Pending) => true,
            (JobStatus::Pending, JobStatus::Pending) => true,
            _ => false,
        }
    }

    /// The word under which the status is stored and shown.
    pub fn as_str(self) -> (r: &'static str)
        ensures
            r@ == self.label(),
    {
        match self {
            JobStatus::Pending => "pending",
            JobStatus::Converting => "converting",
            JobStatus::Done => "done",
            JobStatus::Failed => "failed",
            JobStatus::Skipped => "skipped",
        }
    }

    /// Reads a stored status word. Any other word gives `None`.
    pub fn parse(word: &str) -> (r: Option<JobStatus>)
        ensures
            r matches Some(s) ==> word@ == s.label(),
            r is None ==> forall|s: JobStatus| word@ != s.label(),
    {
        if str_eq(word, "pending") {
            Some(JobStatus::Pending)
        } else if str_eq(word, "converting") {
            Some(JobStatus::Converting)
        } else if str_eq(word, "done") {
            Some(JobStatus::Done)
        } else if str_eq(word, "failed") {
            Some(JobStatus::Failed)
        } else if str_eq(word, "skipped") {
            Some(JobStatus::Skipped)
        } else {
            None
        }
    }

    /// Whether the status is terminal.
    pub fn is_terminal(self) -> (r: bool)
        ensures
            r == self.terminal(),
    {
        match self {
            JobStatus::Done | JobStatus::Failed | JobStatus::Skipped => true,
            _ => false,
        }
    }

    /// Whether a job in this state stands in the way of a second job for the
    /// same source file.
    pub fn is_blocking(self) -> (r: bool)
        ensures
            r == self.blocks_enqueue(),
    {
        match self {
            JobStatus::Pending | JobStatus::Converting | JobStatus::Done => true,
            _ => false,
        }
    }

    /// Whether a job found in this state at startup was cut short.
    pub fn is_interrupted(self) -> (r: bool)
        ensures
            r == self.interrupted(),
    {
        match self {
            JobStatus::Pending | JobStatus::Converting => true,
            _ => false,
        }
    }

    /// Whether the pipeline may take a job from this status to `next`.
    pub fn can_become(self, next: JobStatus) -> (r: bool)
        ensures
            r == self.may_become(next),
    {
        match (self, next) {
            (JobStatus::Pending, JobStatus::Converting) => true,
            (JobStatus::Converting, JobStatus::Done) => true,
            (JobStatus::Converting, JobStatus::Failed) => true,
            (JobStatus::Failed, JobStatus::Pending) => true,
            (JobStatus::Converting, JobStatus::Pending) => true,
            (JobStatus::Pending, JobStatus::Pending) => true,
            _ => false,
        }
    }
}

/// The five status words are pairwise different, so a stored word names at
/// most one status.
pub proof fn lemma_labels_distinct(a: JobStatus, b: JobStatus)
    requires
        a.label() == b.label(),
    ensures
        a == b,
{
    reveal_strlit("pending");
    reveal_strlit("converting");
    reveal_strlit("done");
    reveal_strlit("failed");
    reveal_strlit("skipped");
    assert("pending"@.len() == 7 && "pending"@[0] == 'p');
    assert("converting"@.len() == 10);
    assert("done"@.len() == 4);
    assert("failed"@.len() == 6);
    assert("skipped"@.len() == 7 && "skipped"@[0] == 's');
}

/// No transition leaves `done` or `skipped`, and the only way out of
/// `failed` is back to `pending`.
pub proof fn lemma_terminal_exits(from: JobStatus, to: JobStatus)
    requires
        from.terminal(),
        from.may_become(to),
    ensures
        from == JobStatus::Failed,
        to == JobStatus::Pending,
{
}

} // verus!
