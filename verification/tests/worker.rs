use modsync::worker::{Failure, Step, Worker};

#[test]
fn fresh_worker_starts_at_discard_local() {
    let w = Worker::spawn("/repo".to_string(), "libs/a".to_string());
    assert_eq!(w.pending_step(), Some(Step::DiscardLocal));
}

#[test]
fn work_dir_joins_root_and_path() {
    let w = Worker::spawn("/repo".to_string(), "libs/a".to_string());
    assert_eq!(w.work_dir(), "/repo/libs/a".to_string());
}

#[test]
fn first_step_launch_failure_stops_the_worker() {
    let mut w = Worker::spawn("/repo".to_string(), "libs/a".to_string());
    let record = w.on_launch(Err("spawn failed".to_string()));
    assert_eq!(
        record,
        Some(Failure::DiscardLocalFailed {
            path: "libs/a".to_string(),
            cause: "spawn failed".to_string(),
        })
    );
    // Steps two to four never run: nothing is pending any more.
    assert_eq!(w.pending_step(), None);
}

#[test]
fn steps_advance_in_protocol_order() {
    let mut w = Worker::spawn("/repo".to_string(), "libs/a".to_string());
    assert_eq!(w.pending_step(), Some(Step::DiscardLocal));
    assert_eq!(w.on_launch(Ok(())), None);
    assert_eq!(w.pending_step(), Some(Step::SyncSubmodules));
    assert_eq!(w.on_launch(Ok(())), None);
    assert_eq!(w.pending_step(), Some(Step::PullLatest));
    assert_eq!(w.on_launch(Ok(())), None);
    assert_eq!(w.pending_step(), Some(Step::CheckoutMain));
    assert_eq!(w.on_launch(Ok(())), None);
    assert_eq!(w.pending_step(), None);
}

#[test]
fn second_step_failure_is_tagged_for_it() {
    let mut w = Worker::spawn("/repo".to_string(), "libs/a".to_string());
    assert_eq!(w.on_launch(Ok(())), None);
    let record = w.on_launch(Err("gone".to_string()));
    assert_eq!(
        record,
        Some(Failure::SyncSubmodulesFailed {
            path: "libs/a".to_string(),
            cause: "gone".to_string(),
        })
    );
    assert_eq!(w.pending_step(), None);
}

#[test]
fn third_and_fourth_step_failures_are_tagged_for_them() {
    let mut w = Worker::spawn("/r".to_string(), "p".to_string());
    w.on_launch(Ok(()));
    w.on_launch(Ok(()));
    let record = w.on_launch(Err("x".to_string()));
    assert_eq!(
        record,
        Some(Failure::PullLatestFailed { path: "p".to_string(), cause: "x".to_string() })
    );

    let mut w = Worker::spawn("/r".to_string(), "p".to_string());
    w.on_launch(Ok(()));
    w.on_launch(Ok(()));
    w.on_launch(Ok(()));
    let record = w.on_launch(Err("y".to_string()));
    assert_eq!(
        record,
        Some(Failure::CheckoutMainFailed { path: "p".to_string(), cause: "y".to_string() })
    );
}

#[test]
fn describe_renders_each_variant() {
    let p = "libs/a".to_string();
    let c = "boom".to_string();
    assert_eq!(
        Failure::DiscardLocalFailed { path: p.clone(), cause: c.clone() }.describe(),
        "git checkout . error: boom, path: libs/a".to_string()
    );
    assert_eq!(
        Failure::SyncSubmodulesFailed { path: p.clone(), cause: c.clone() }.describe(),
        "git submodule update error: boom, path: libs/a".to_string()
    );
    assert_eq!(
        Failure::PullLatestFailed { path: p.clone(), cause: c.clone() }.describe(),
        "git pull error: boom, path: libs/a".to_string()
    );
    assert_eq!(
        Failure::CheckoutMainFailed { path: p, cause: c }.describe(),
        "git checkout main error: boom, path: libs/a".to_string()
    );
}

#[test]
fn duplicate_is_an_equal_copy() {
    let f = Failure::PullLatestFailed { path: "a/b".to_string(), cause: "nope".to_string() };
    assert_eq!(f.duplicate(), f);
}
