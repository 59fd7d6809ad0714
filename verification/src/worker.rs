//! One worker per submodule path: a fixed four-step reset protocol that
//! stops at the first launch failure and emits at most one failure record.

use vstd::prelude::*;
use vstd::string::StringExecFns;

verus! {

/// The four repository-reset operations, in protocol order.
#[derive(Clone, Copy, Debug, PartialEq, Eq)]
pub enum Step {
    /// Revert uncommitted local modifications (`checkout .`).
    DiscardLocal,
    /// Initialize and recursively update nested submodules.
    SyncSubmodules,
    /// Fetch and merge upstream changes on the current branch.
    PullLatest,
    /// Switch the working tree to the main branch.
    CheckoutMain,
}

/// One per-path failure record: which step failed to launch, for which path,
/// and the launch error's message. Immutable once created.
#[derive(Clone, Debug, PartialEq, Eq)]
pub enum Failure {
    DiscardLocalFailed { path: String, cause: String },
    SyncSubmodulesFailed { path: String, cause: String },
    PullLatestFailed { path: String, cause: String },
    CheckoutMainFailed { path: String, cause: String },
}

/// The step a fresh worker launches first.
pub open spec fn first_step() -> Step {
    Step::DiscardLocal
}

/// The step that follows `s` in the protocol, or `None` after the last.
pub open spec fn step_after(s: Step) -> Option<Step> {
    match s {
        Step::DiscardLocal => Some(Step::SyncSubmodules),
        Step::SyncSubmodules => Some(Step::PullLatest),
        Step::PullLatest => Some(Step::CheckoutMain),
        Step::CheckoutMain => None,
    }
}

/// The failure record a launch failure of `step` on `path` produces, with the
/// launch error's message as its cause.
pub open spec fn failure_for(step: Step, path: String, cause: String) -> Failure {
    match step {
        Step::DiscardLocal => Failure::DiscardLocalFailed { path, cause },
        Step::SyncSubmodules => Failure::SyncSubmodulesFailed { path, cause },
        Step::PullLatest => Failure::PullLatestFailed { path, cause },
        Step::CheckoutMain => Failure::CheckoutMainFailed { path, cause },
    }
}

/// One concurrent unit of work: the shared root, the one path this worker
/// owns, and the step whose external invocation has yet to be launched
/// (`None` once the worker has stopped, successfully or not).
pub struct Worker {
    pub root: String,
    pub path: String,
    pub pending: Option<Step>,
}

/// The worker the scheduler hands one path: about to launch the first step.
pub open spec fn spawned(root: String, path: String) -> Worker {
    Worker { root, path, pending: Some(first_step()) }
}

/// The worker state after it observes one launch outcome: on success the
/// next step becomes pending; on failure (or once already stopped) it stops.
pub open spec fn after_launch(w: Worker, launch: Result<(), String>) -> Worker {
    match w.pending {
        Some(step) => match launch {
            Ok(_) => Worker { pending: step_after(step), ..w },
            Err(_) => Worker { pending: None, ..w },
        },
        None => w,
    }
}

/// The failure record, if any, that one launch outcome makes a worker emit:
/// exactly one on a launch failure of a pending step, none otherwise.
pub open spec fn launch_failure(w: Worker, launch: Result<(), String>) -> Option<Failure> {
    match w.pending {
        Some(step) => match launch {
            Ok(_) => None,
            Err(cause) => Some(failure_for(step, w.path, cause)),
        },
        None => None,
    }
}

/// Every failure record a worker emits when its successive launch attempts
/// have the outcomes in `launches`, in order of emission.
pub open spec fn run_from(w: Worker, launches: Seq<Result<(), String>>) -> Seq<Failure>
    decreases launches.len(),
{
    if launches.len() == 0 {
        Seq::empty()
    } else {
        (match launch_failure(w, launches[0]) {
            Some(f) => seq![f],
            None => Seq::<Failure>::empty(),
        }) + run_from(after_launch(w, launches[0]), launches.skip(1))
    }
}

impl Worker {
    /// Hand one path to a fresh worker.
    pub fn spawn(root: String, path: String) -> (w: Worker)
        ensures
            w == spawned(root, path),
    {
        Worker { root, path, pending: Some(Step::DiscardLocal) }
    }

    /// The step whose external invocation should be launched next, if any.
    pub fn pending_step(&self) -> (r: Option<Step>)
        ensures
            r == self.pending,
    {
        self.pending
    }

    /// The working directory for every invocation this worker makes:
    /// the root directory joined with this worker's path.
    pub fn work_dir(&self) -> (d: String)
        ensures
            d@ == self.root@ + seq!['/'] + self.path@,
    {
        let mut d = self.root.clone();
        d.append("/");
        d.append(self.path.as_str());
        proof {
            reveal_strlit("/");
            assert(d@ =~= self.root@ + seq!['/'] + self.path@);
        }
        d
    }

    /// Observe the outcome of launching the pending step. On success the
    /// protocol advances; on a launch failure the worker stops for good and
    /// this returns the single failure record for that step.
    pub fn on_launch(&mut self, launch: Result<(), String>) -> (f: Option<Failure>)
        requires
            old(self).pending is Some,
        ensures
            *final(self) == after_launch(*old(self), launch),
            f == launch_failure(*old(self), launch),
    {
        let step = self.pending.unwrap();
        match launch {
            Ok(_) => {
                self.pending = match step {
                    Step::DiscardLocal => Some(Step::SyncSubmodules),
                    Step::SyncSubmodules => Some(Step::PullLatest),
                    Step::PullLatest => Some(Step::CheckoutMain),
                    Step::CheckoutMain => None,
                };
                None
            },
            Err(cause) => {
                self.pending = None;
                Some(
                    match step {
                        Step::DiscardLocal => Failure::DiscardLocalFailed {
                            path: self.path.clone(),
                            cause,
                        },
                        Step::SyncSubmodules => Failure::SyncSubmodulesFailed {
                            path: self.path.clone(),
                            cause,
                        },
                        Step::PullLatest => Failure::PullLatestFailed {
                            path: self.path.clone(),
                            cause,
                        },
                        Step::CheckoutMain => Failure::CheckoutMainFailed {
                            path: self.path.clone(),
                            cause,
                        },
                    },
                )
            },
        }
    }
}

/// The rendered message of a failure record, as the final report prints it.
pub open spec fn describe_spec(f: Failure) -> Seq<char> {
    match f {
        Failure::DiscardLocalFailed { path, cause } => "git checkout . error: "@ + cause@
            + ", path: "@ + path@,
        Failure::SyncSubmodulesFailed { path, cause } => "git submodule update error: "@ + cause@
            + ", path: "@ + path@,
        Failure::PullLatestFailed { path, cause } => "git pull error: "@ + cause@ + ", path: "@
            + path@,
        Failure::CheckoutMainFailed { path, cause } => "git checkout main error: "@ + cause@
            + ", path: "@ + path@,
    }
}

impl Failure {
    /// Render the record for the final report.
    pub fn describe(&self) -> (r: String)
        ensures
            r@ == describe_spec(*self),
    {
        match self {
            Failure::DiscardLocalFailed { path, cause } => {
                let mut r = String::from_str("git checkout . error: ");
                r.append(cause.as_str());
                r.append(", path: ");
                r.append(path.as_str());
                r
            },
            Failure::SyncSubmodulesFailed { path, cause } => {
                let mut r = String::from_str("git submodule update error: ");
                r.append(cause.as_str());
                r.append(", path: ");
                r.append(path.as_str());
                r
            },
            Failure::PullLatestFailed { path, cause } => {
                let mut r = String::from_str("git pull error: ");
                r.append(cause.as_str());
                r.append(", path: ");
                r.append(path.as_str());
                r
            },
            Failure::CheckoutMainFailed { path, cause } => {
                let mut r = String::from_str("git checkout main error: ");
                r.append(cause.as_str());
                r.append(", path: ");
                r.append(path.as_str());
                r
            },
        }
    }

    /// An equal copy of the record; the aggregator's snapshot uses it.
    pub fn duplicate(&self) -> (r: Failure)
        ensures
            r == *self,
    {
        match self {
            Failure::DiscardLocalFailed { path, cause } => Failure::DiscardLocalFailed {
                path: path.clone(),
                cause: cause.clone(),
            },
            Failure::SyncSubmodulesFailed { path, cause } => Failure::SyncSubmodulesFailed {
                path: path.clone(),
                cause: cause.clone(),
            },
            Failure::PullLatestFailed { path, cause } => Failure::PullLatestFailed {
                path: path.clone(),
                cause: cause.clone(),
            },
            Failure::CheckoutMainFailed { path, cause } => Failure::CheckoutMainFailed {
                path: path.clone(),
                cause: cause.clone(),
            },
        }
    }
}

/// A stopped worker emits nothing, whatever outcomes still arrive.
pub proof fn lemma_stopped_worker_emits_nothing(w: Worker, launches: Seq<Result<(), String>>)
    requires
        w.pending is None,
    ensures
        run_from(w, launches) == Seq::<Failure>::empty(),
    decreases launches.len(),
{
    if launches.len() > 0 {
        lemma_stopped_worker_emits_nothing(w, launches.skip(1));
        assert(run_from(w, launches) =~= Seq::<Failure>::empty());
    }
}

/// A worker whose launches all succeed emits no failure record at all.
pub proof fn lemma_all_ok_emits_nothing(w: Worker, launches: Seq<Result<(), String>>)
    requires
        forall|i: int| 0 <= i < launches.len() ==> launches[i] is Ok,
    ensures
        run_from(w, launches) == Seq::<Failure>::empty(),
    decreases launches.len(),
{
    if launches.len() > 0 {
        assert(forall|i: int|
            0 <= i < launches.skip(1).len() ==> launches.skip(1)[i] == launches[i + 1]);
        lemma_all_ok_emits_nothing(after_launch(w, launches[0]), launches.skip(1));
        assert(run_from(w, launches) =~= Seq::<Failure>::empty());
    }
}

/// A worker never emits more than one failure record, whatever the outcomes
/// of its launches: the first failure stops it for good.
pub proof fn lemma_at_most_one_failure(w: Worker, launches: Seq<Result<(), String>>)
    ensures
        run_from(w, launches).len() <= 1,
    decreases launches.len(),
{
    if launches.len() > 0 {
        match launch_failure(w, launches[0]) {
            Some(_) => {
                lemma_stopped_worker_emits_nothing(after_launch(w, launches[0]), launches.skip(1));
            },
            None => {
                lemma_at_most_one_failure(after_launch(w, launches[0]), launches.skip(1));
            },
        }
    }
}

/// A worker whose first launch fails emits exactly one failure record —
/// tagged with the first step and carrying its path and the launch error's
/// message — and nothing afterwards: the remaining steps never run.
pub proof fn lemma_first_launch_failure(
    root: String,
    path: String,
    cause: String,
    rest: Seq<Result<(), String>>,
)
    ensures
        run_from(spawned(root, path), seq![Result::<(), String>::Err(cause)] + rest) == seq![
            failure_for(first_step(), path, cause),
        ],
        after_launch(spawned(root, path), Err(cause)).pending is None,
{
    let w = spawned(root, path);
    let launches = seq![Result::<(), String>::Err(cause)] + rest;
    assert(launches[0] == Result::<(), String>::Err(cause));
    assert(launches.skip(1) =~= rest);
    lemma_stopped_worker_emits_nothing(after_launch(w, launches[0]), rest);
    assert(run_from(w, launches) =~= seq![failure_for(first_step(), path, cause)]);
}

/// Four successful launches complete the protocol: no step stays pending and
/// no failure record was emitted on the way.
pub proof fn lemma_four_successes_complete(root: String, path: String)
    ensures
        ({
            let ok = Result::<(), String>::Ok(());
            let w0 = spawned(root, path);
            let w1 = after_launch(w0, ok);
            let w2 = after_launch(w1, ok);
            let w3 = after_launch(w2, ok);
            let w4 = after_launch(w3, ok);
            &&& w4.pending is None
            &&& launch_failure(w0, ok) is None
            &&& launch_failure(w1, ok) is None
            &&& launch_failure(w2, ok) is None
            &&& launch_failure(w3, ok) is None
        }),
{
}

} // verus!
