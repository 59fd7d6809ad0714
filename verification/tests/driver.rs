use modsync::aggregator::Aggregator;
use modsync::driver::{resolve_config, resolve_root, Driver, Fatal, Phase, Report};
use modsync::worker::{Failure, Step};

#[test]
fn unset_configuration_aborts_before_anything_runs() {
    let r = resolve_config(None);
    assert_eq!(r, Err(Fatal::ConfigMissing));
}

#[test]
fn set_configuration_is_passed_through() {
    let r = resolve_config(Some("/somewhere".to_string()));
    assert_eq!(r, Ok("/somewhere".to_string()));
}

#[test]
fn unresolvable_root_is_fatal() {
    let r = resolve_root(Err("no such directory".to_string()));
    assert_eq!(r, Err(Fatal::RootUnresolvable { cause: "no such directory".to_string() }));
    assert_eq!(resolve_root(Ok("/repo".to_string())), Ok("/repo".to_string()));
}

#[test]
fn unreadable_manifest_is_fatal() {
    let mut d = Driver::new_run();
    let r = d.load_manifest("/repo".to_string(), Err("permission denied".to_string()));
    assert_eq!(r, Err(Fatal::ManifestUnreadable { cause: "permission denied".to_string() }));
    assert_eq!(d.phase, Phase::Init);
}

#[test]
fn missing_tool_is_fatal() {
    let mut d = Driver::new_run();
    d.load_manifest("/repo".to_string(), Ok("path = a\n".to_string()))
        .expect("manifest should load");
    let r = d.on_probe(Err("git: not found".to_string()));
    assert_eq!(r, Err(Fatal::ToolUnavailable { cause: "git: not found".to_string() }));
    assert_eq!(d.phase, Phase::ManifestLoaded);
}

#[test]
fn one_worker_per_path_in_manifest_order() {
    let mut d = Driver::new_run();
    d.load_manifest(
        "/repo".to_string(),
        Ok("path = libs/a\nnoise\npath = libs/b\n".to_string()),
    )
    .expect("manifest should load");
    d.on_probe(Ok(())).expect("probe should pass");
    let workers = d.dispatch();
    assert_eq!(workers.len(), 2);
    assert_eq!(workers[0].path, "libs/a".to_string());
    assert_eq!(workers[1].path, "libs/b".to_string());
    assert_eq!(workers[0].root, "/repo".to_string());
    assert_eq!(workers[0].pending_step(), Some(Step::DiscardLocal));
    assert_eq!(workers[1].pending_step(), Some(Step::DiscardLocal));
    assert_eq!(d.phase, Phase::Dispatched);
}

#[test]
fn clean_run_reports_success() {
    let mut d = Driver::new_run();
    d.load_manifest("/repo".to_string(), Ok("path = a\npath = b\n".to_string()))
        .expect("manifest should load");
    d.on_probe(Ok(())).expect("probe should pass");
    let workers = d.dispatch();
    let mut agg = Aggregator::new();
    for mut w in workers {
        while w.pending_step().is_some() {
            if let Some(record) = w.on_launch(Ok(())) {
                agg.append(record);
            }
        }
    }
    d.joined();
    let report = d.report(agg.drain_snapshot());
    assert_eq!(report, Report::Success);
    assert_eq!(d.phase, Phase::Reported);
}

#[test]
fn clean_run_reports_success_twice_in_a_row() {
    for _ in 0..2 {
        let mut d = Driver::new_run();
        d.load_manifest("/repo".to_string(), Ok("path = a\n".to_string()))
            .expect("manifest should load");
        d.on_probe(Ok(())).expect("probe should pass");
        let workers = d.dispatch();
        let mut agg = Aggregator::new();
        for mut w in workers {
            while w.pending_step().is_some() {
                if let Some(record) = w.on_launch(Ok(())) {
                    agg.append(record);
                }
            }
        }
        d.joined();
        assert_eq!(d.report(agg.drain_snapshot()), Report::Success);
    }
}

#[test]
fn one_failing_path_yields_exactly_its_one_record() {
    let mut d = Driver::new_run();
    let manifest =
        "[submodule \"a\"]\n\tpath = libs/a\n[submodule \"b\"]\n\tpath = libs/b\n".to_string();
    d.load_manifest("/repo".to_string(), Ok(manifest)).expect("manifest should load");
    d.on_probe(Ok(())).expect("probe should pass");
    let mut workers = d.dispatch();
    assert_eq!(workers.len(), 2);

    let mut agg = Aggregator::new();
    // The worker for libs/a cannot even launch its first step.
    let first = &mut workers[0];
    if let Some(record) = first.on_launch(Err("no such directory".to_string())) {
        agg.append(record);
    }
    assert_eq!(first.pending_step(), None);
    // The worker for libs/b launches all four steps.
    let second = &mut workers[1];
    while second.pending_step().is_some() {
        if let Some(record) = second.on_launch(Ok(())) {
            agg.append(record);
        }
    }

    d.joined();
    let snapshot = agg.drain_snapshot();
    assert_eq!(snapshot.len(), 1);
    assert_eq!(
        snapshot[0],
        Failure::DiscardLocalFailed {
            path: "libs/a".to_string(),
            cause: "no such directory".to_string(),
        }
    );
    let report = d.report(snapshot);
    assert_eq!(
        report,
        Report::Failures(vec![Failure::DiscardLocalFailed {
            path: "libs/a".to_string(),
            cause: "no such directory".to_string(),
        }])
    );
}
