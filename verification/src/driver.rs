//! The run driver: one run walks the phases
//! `Init → ManifestLoaded → GloballyReset → Dispatched → Joined → Reported`,
//! never revisiting one. The surrounding binary performs the outside work of
//! each transition (environment, filesystem, tool invocations, threads) and
//! hands the outcome in; the driver holds every decision and aborts the run
//! on a startup fault.

use crate::manifest;
use crate::worker::{spawned, run_from, Failure, Worker};
use vstd::prelude::*;

verus! {

/// The phases of one run, in order.
#[derive(Clone, Copy, Debug, PartialEq, Eq)]
pub enum Phase {
    Init,
    ManifestLoaded,
    GloballyReset,
    Dispatched,
    Joined,
    Reported,
}

/// A startup fault: the run aborts immediately, with no partial report.
#[derive(Clone, Debug, PartialEq, Eq)]
pub enum Fatal {
    /// The configuration variable naming the manifest's parent directory is unset.
    ConfigMissing,
    /// The named directory cannot be resolved to a canonical path.
    RootUnresolvable { cause: String },
    /// The manifest file cannot be read.
    ManifestUnreadable { cause: String },
    /// The external tool does not answer the capability probe.
    ToolUnavailable { cause: String },
}

/// The final outcome of a run.
#[derive(Clone, Debug, PartialEq, Eq)]
pub enum Report {
    /// Every worker completed without a failure record.
    Success,
    /// The failure records of all workers, in aggregation order.
    Failures(Vec<Failure>),
}

/// One run of the pipeline: its phase, the resolved root directory, and the
/// paths discovered from the manifest.
pub struct Driver {
    pub phase: Phase,
    pub root: String,
    pub paths: Vec<String>,
}

/// The run may only proceed when the configuration variable is set; an unset
/// variable aborts before anything else happens — in particular before any
/// worker exists and before any tool invocation is decided.
pub fn resolve_config(env: Option<String>) -> (r: Result<String, Fatal>)
    ensures
        env is None ==> r == Result::<String, Fatal>::Err(Fatal::ConfigMissing),
        env matches Some(dir) ==> r == Result::<String, Fatal>::Ok(dir),
{
    match env {
        None => Err(Fatal::ConfigMissing),
        Some(dir) => Ok(dir),
    }
}

/// The configured directory must resolve to a canonical root; a resolution
/// error aborts the run with that error's message.
pub fn resolve_root(canon: Result<String, String>) -> (r: Result<String, Fatal>)
    ensures
        canon matches Ok(root) ==> r == Result::<String, Fatal>::Ok(root),
        canon matches Err(cause) ==> r == Result::<String, Fatal>::Err(
            Fatal::RootUnresolvable { cause },
        ),
{
    match canon {
        Ok(root) => Ok(root),
        Err(cause) => Err(Fatal::RootUnresolvable { cause }),
    }
}

impl Driver {
    /// A run that has not started.
    pub fn new_run() -> (d: Driver)
        ensures
            d.phase == Phase::Init,
            d.root@ == Seq::<char>::empty(),
            d.paths@ == Seq::<String>::empty(),
    {
        Driver { phase: Phase::Init, root: String::new(), paths: Vec::new() }
    }

    /// `Init → ManifestLoaded`: take the resolved root and the manifest text
    /// and discover the paths; an unreadable manifest aborts the run and
    /// leaves the driver as it was.
    pub fn load_manifest(&mut self, root: String, contents: Result<String, String>) -> (r: Result<
        (),
        Fatal,
    >)
        requires
            old(self).phase == Phase::Init,
        ensures
            contents matches Ok(text) ==> {
                &&& r == Result::<(), Fatal>::Ok(())
                &&& final(self).phase == Phase::ManifestLoaded
                &&& final(self).root == root
                &&& manifest::path_views(final(self).paths@) == manifest::manifest_paths(text@)
            },
            contents matches Err(cause) ==> {
                &&& r == Result::<(), Fatal>::Err(Fatal::ManifestUnreadable { cause })
                &&& *final(self) == *old(self)
            },
    {
        match contents {
            Ok(text) => {
                self.paths = manifest::parse_manifest(text.as_str());
                self.root = root;
                self.phase = Phase::ManifestLoaded;
                Ok(())
            },
            Err(cause) => Err(Fatal::ManifestUnreadable { cause }),
        }
    }

    /// `ManifestLoaded → GloballyReset`: the capability probe must answer; an
    /// unavailable tool aborts the run. The global hard reset that follows
    /// the probe is best-effort and reports nothing, so no outcome of it is
    /// taken here.
    pub fn on_probe(&mut self, probe: Result<(), String>) -> (r: Result<(), Fatal>)
        requires
            old(self).phase == Phase::ManifestLoaded,
        ensures
            probe is Ok ==> {
                &&& r == Result::<(), Fatal>::Ok(())
                &&& final(self).phase == Phase::GloballyReset
                &&& final(self).root == old(self).root
                &&& final(self).paths == old(self).paths
            },
            probe matches Err(cause) ==> {
                &&& r == Result::<(), Fatal>::Err(Fatal::ToolUnavailable { cause })
                &&& *final(self) == *old(self)
            },
    {
        match probe {
            Ok(_) => {
                self.phase = Phase::GloballyReset;
                Ok(())
            },
            Err(cause) => Err(Fatal::ToolUnavailable { cause }),
        }
    }

    /// `GloballyReset → Dispatched`: exactly one fresh worker per discovered
    /// path, in manifest order; no path is skipped and nothing else is
    /// handed out.
    pub fn dispatch(&mut self) -> (ws: Vec<Worker>)
        requires
            old(self).phase == Phase::GloballyReset,
        ensures
            final(self).phase == Phase::Dispatched,
            final(self).root == old(self).root,
            final(self).paths == old(self).paths,
            ws@.len() == old(self).paths@.len(),
            forall|i: int|
                0 <= i < ws@.len() ==> ws@[i] == spawned(old(self).root, old(self).paths@[i]),
    {
        let mut ws: Vec<Worker> = Vec::new();
        let mut i: usize = 0;
        while i < self.paths.len()
            invariant
                i <= self.paths.len(),
                ws@.len() == i,
                forall|k: int| 0 <= k < i ==> ws@[k] == spawned(self.root, self.paths@[k]),
            decreases self.paths.len() - i,
        {
            ws.push(Worker::spawn(self.root.clone(), self.paths[i].clone()));
            i = i + 1;
        }
        self.phase = Phase::Dispatched;
        ws
    }

    /// `Dispatched → Joined`: recorded once every spawned worker has
    /// terminated — the join barrier is the caller's; nothing else changes.
    pub fn joined(&mut self)
        requires
            old(self).phase == Phase::Dispatched,
        ensures
            final(self).phase == Phase::Joined,
            final(self).root == old(self).root,
            final(self).paths == old(self).paths,
    {
        self.phase = Phase::Joined;
    }

    /// `Joined → Reported`: an empty drain of the aggregator is overall
    /// success; otherwise the report carries every collected record,
    /// unchanged and in order, and the run ends without success.
    pub fn report(&mut self, failures: Vec<Failure>) -> (r: Report)
        requires
            old(self).phase == Phase::Joined,
        ensures
            final(self).phase == Phase::Reported,
            failures@.len() == 0 ==> r == Report::Success,
            failures@.len() > 0 ==> r == Report::Failures(failures),
    {
        self.phase = Phase::Reported;
        if failures.is_empty() {
            Report::Success
        } else {
            Report::Failures(failures)
        }
    }
}

/// The failure records a whole run contributes, in path order: worker `i`
/// handles `paths[i]` and observes the launch outcomes `launches[i]`. The
/// shared aggregator receives these records in some arrival order; which
/// records exist does not depend on that order.
pub open spec fn all_emissions(
    root: String,
    paths: Seq<String>,
    launches: Seq<Seq<Result<(), String>>>,
) -> Seq<Failure>
    decreases paths.len(),
{
    if paths.len() == 0 {
        Seq::empty()
    } else {
        let head = if launches.len() > 0 {
            launches[0]
        } else {
            Seq::<Result<(), String>>::empty()
        };
        let tail = if launches.len() > 0 {
            launches.skip(1)
        } else {
            Seq::<Seq<Result<(), String>>>::empty()
        };
        run_from(spawned(root, paths[0]), head) + all_emissions(root, paths.skip(1), tail)
    }
}

proof fn lemma_all_ok_run_is_empty(
    root: String,
    paths: Seq<String>,
    launches: Seq<Seq<Result<(), String>>>,
)
    requires
        forall|i: int, j: int|
            0 <= i < launches.len() && 0 <= j < launches[i].len() ==> launches[i][j] is Ok,
    ensures
        all_emissions(root, paths, launches) == Seq::<Failure>::empty(),
    decreases paths.len(),
{
    if paths.len() > 0 {
        let head = if launches.len() > 0 {
            launches[0]
        } else {
            Seq::<Result<(), String>>::empty()
        };
        let tail = if launches.len() > 0 {
            launches.skip(1)
        } else {
            Seq::<Seq<Result<(), String>>>::empty()
        };
        crate::worker::lemma_all_ok_emits_nothing(spawned(root, paths[0]), head);
        assert forall|i: int, j: int|
            0 <= i < tail.len() && 0 <= j < tail[i].len() implies tail[i][j] is Ok by {
            assert(tail[i] == launches[i + 1]);
        }
        lemma_all_ok_run_is_empty(root, paths.skip(1), tail);
        assert(all_emissions(root, paths, launches) =~= Seq::<Failure>::empty());
    }
}

/// Idempotence on a clean, up-to-date set of paths: in a run where every
/// launch succeeds no worker contributes a record, so the drain is empty and
/// the report is success — and a second run whose launches again all succeed
/// reports success again.
pub proof fn lemma_clean_runs_report_success(
    root: String,
    paths: Seq<String>,
    first: Seq<Seq<Result<(), String>>>,
    second: Seq<Seq<Result<(), String>>>,
)
    requires
        forall|i: int, j: int|
            0 <= i < first.len() && 0 <= j < first[i].len() ==> first[i][j] is Ok,
        forall|i: int, j: int|
            0 <= i < second.len() && 0 <= j < second[i].len() ==> second[i][j] is Ok,
    ensures
        all_emissions(root, paths, first) == Seq::<Failure>::empty(),
        all_emissions(root, paths, second) == Seq::<Failure>::empty(),
{
    lemma_all_ok_run_is_empty(root, paths, first);
    lemma_all_ok_run_is_empty(root, paths, second);
}

} // verus!
