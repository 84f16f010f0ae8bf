//! The order of a run: which step comes next, and what is said before it.

use vstd::prelude::*;
use vstd::string::StringExecFns;
use crate::job::{Job, JobType, JobTypeView, steps};
use crate::render::{decimal, decimal_text};

verus! {

/// What is to be done next.
#[derive(Debug, Clone, Copy, PartialEq, Eq, Structural)]
pub enum Action {
    /// Check the files for errors of the language.
    Check,
    /// Run the analyses on what the check gave.
    Analyze,
    /// Hand the files to `javac`.
    PassThrough,
    /// Run the compiled files with `java`.
    Run,
    /// An analysis is asked for and no check was made: the run fails.
    FailUnchecked,
    /// All steps are done.
    Done,
}

/// The action for step `at` of a run with the steps `jobs`, where
/// `checked` says whether a check was made.
pub open spec fn action(jobs: Seq<JobTypeView>, at: int, checked: bool) -> Action {
    if at < 0 || at >= jobs.len() {
        Action::Done
    } else {
        match jobs[at] {
            JobTypeView::Check => Action::Check,
            JobTypeView::PassThrough => Action::PassThrough,
            JobTypeView::Run => Action::Run,
            JobTypeView::Analyze { passes } => if checked {
                Action::Analyze
            } else {
                Action::FailUnchecked
            },
        }
    }
}

/// What is to be done as step `at` of the job, where `checked` says
/// whether a check was made before.
pub fn handle(job: &Job, at: usize, checked: bool) -> (a: Action)
    ensures
        a == action(steps(job.sub_jobs@), at as int, checked),
{
    if at >= job.sub_jobs.len() {
        Action::Done
    } else {
        match &job.sub_jobs[at] {
            JobType::Check => Action::Check,
            JobType::PassThrough => Action::PassThrough,
            JobType::Run => Action::Run,
            JobType::Analyze { passes } => if checked {
                Action::Analyze
            } else {
                Action::FailUnchecked
            },
        }
    }
}

/// What a verbose run says before an action, for `n` files.
pub open spec fn announcement(a: Action, n: nat) -> Option<Seq<char>> {
    match a {
        Action::Check => Some(
            "Starting batch checking of "@ + decimal(n) + " file(s) [--check]"@,
        ),
        Action::PassThrough => Some(
            "Starting batch compile of "@ + decimal(n) + " file(s) [--pass-through]"@,
        ),
        Action::Run => Some("Starting to run one of "@ + decimal(n) + " file(s) [--run]"@),
        _ => None,
    }
}

/// What the job says before an action: something only where it is
/// verbose.
pub fn announce(job: &Job, a: Action) -> (r: Option<String>)
    ensures
        match r {
            Some(s) => job.verbose && announcement(a, job.files@.len()) == Some(s@),
            None => !job.verbose || announcement(a, job.files@.len()) is None,
        },
{
    if !job.verbose {
        return None;
    }
    let n = decimal_text(job.files.len());
    match a {
        Action::Check => {
            let mut s = "Starting batch checking of ".to_owned();
            s.append(n.as_str());
            s.append(" file(s) [--check]");
            Some(s)
        },
        Action::PassThrough => {
            let mut s = "Starting batch compile of ".to_owned();
            s.append(n.as_str());
            s.append(" file(s) [--pass-through]");
            Some(s)
        },
        Action::Run => {
            let mut s = "Starting to run one of ".to_owned();
            s.append(n.as_str());
            s.append(" file(s) [--run]");
            Some(s)
        },
        _ => None,
    }
}

/// Where a run stands: the step that is next, and whether a check was
/// made.
#[derive(Debug, Clone, Copy, PartialEq, Eq, Structural)]
pub struct Progress {
    pub at: usize,
    pub checked: bool,
}

/// Whether step `at` is a check.
pub open spec fn is_check(jobs: Seq<JobTypeView>, at: int) -> bool {
    0 <= at < jobs.len() && jobs[at] is Check
}

/// Where the run stands behind step `at`, of which `succeeded` says how it
/// went; `None` where the run ends with that step: where it failed, where
/// an analysis had no check before it, and behind the last step.
pub open spec fn after_step(jobs: Seq<JobTypeView>, at: int, checked: bool, succeeded: bool) -> Option<
    (int, bool),
> {
    match action(jobs, at, checked) {
        Action::Done => None,
        Action::FailUnchecked => None,
        _ => if succeeded {
            Some((at + 1, checked || is_check(jobs, at)))
        } else {
            None
        },
    }
}

/// Where the run stands behind step `at` of the job; `None` where the run
/// ends with that step. A step that failed ends the run: no later step is
/// started.
pub fn proceed(job: &Job, at: usize, checked: bool, succeeded: bool) -> (r: Option<Progress>)
    ensures
        match after_step(steps(job.sub_jobs@), at as int, checked, succeeded) {
            Some(next) => r == Some(Progress { at: next.0 as usize, checked: next.1 })
                && next.0 <= usize::MAX,
            None => r is None,
        },
{
    if at >= job.sub_jobs.len() || !succeeded {
        return None;
    }
    match &job.sub_jobs[at] {
        JobType::Check => Some(Progress { at: at + 1, checked: true }),
        JobType::Analyze { passes } => if checked {
            Some(Progress { at: at + 1, checked })
        } else {
            None
        },
        _ => Some(Progress { at: at + 1, checked }),
    }
}

/// Whether a run from step `at` on succeeds, where `outcomes` says of each
/// step how it goes if it is started: the steps are done in their order,
/// the first that fails ends the run, and an analysis without a check
/// before it fails the run.
pub open spec fn run_succeeds(jobs: Seq<JobTypeView>, outcomes: Seq<bool>, at: int, checked: bool) -> bool
    decreases jobs.len() - at,
{
    if at < 0 || at >= jobs.len() || at >= outcomes.len() {
        action(jobs, at, checked) == Action::Done
    } else {
        match after_step(jobs, at, checked, outcomes[at]) {
            Some(next) => run_succeeds(jobs, outcomes, next.0, next.1),
            None => false,
        }
    }
}

/// Whether a check stands among the steps before step `at`.
pub open spec fn check_before(jobs: Seq<JobTypeView>, at: int) -> bool
    decreases at,
{
    at > 0 && (is_check(jobs, at - 1) || check_before(jobs, at - 1))
}

/// Whether step `i` succeeds and, if it is an analysis, has a check before
/// it.
pub open spec fn step_good(jobs: Seq<JobTypeView>, outcomes: Seq<bool>, i: int) -> bool {
    outcomes[i] && (jobs[i] is Analyze ==> check_before(jobs, i))
}

/// Whether each step from `at` on succeeds, and each analysis among them
/// has a check before it.
pub open spec fn steps_good(jobs: Seq<JobTypeView>, outcomes: Seq<bool>, at: int) -> bool {
    forall|i: int| at <= i < jobs.len() ==> #[trigger] step_good(jobs, outcomes, i)
}

/// A run succeeds if and only if each of its steps succeeds and each
/// analysis has a check before it.
pub proof fn lemma_run_succeeds(jobs: Seq<JobTypeView>, outcomes: Seq<bool>, at: int)
    requires
        0 <= at <= jobs.len(),
        outcomes.len() == jobs.len(),
    ensures
        run_succeeds(jobs, outcomes, at, check_before(jobs, at)) <==> steps_good(
            jobs,
            outcomes,
            at,
        ),
    decreases jobs.len() - at,
{
    if at < jobs.len() {
        lemma_run_succeeds(jobs, outcomes, at + 1);
        let checked = check_before(jobs, at);
        assert(check_before(jobs, at + 1) == (checked || is_check(jobs, at)));
        assert(run_succeeds(jobs, outcomes, at, checked) <==> step_good(jobs, outcomes, at)
            && run_succeeds(jobs, outcomes, at + 1, check_before(jobs, at + 1)));
        if steps_good(jobs, outcomes, at) {
            assert(step_good(jobs, outcomes, at));
            assert forall|i: int| at + 1 <= i < jobs.len() implies #[trigger] step_good(
                jobs,
                outcomes,
                i,
            ) by {
                assert(at <= i);
            }
        }
        if step_good(jobs, outcomes, at) && steps_good(jobs, outcomes, at + 1) {
            assert forall|i: int| at <= i < jobs.len() implies #[trigger] step_good(
                jobs,
                outcomes,
                i,
            ) by {
                if i > at {
                    assert(at + 1 <= i);
                }
            }
        }
    }
}

} // verus!
