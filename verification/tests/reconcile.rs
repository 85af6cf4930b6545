use pixi_conda::constraint::DependencySpec;
use pixi_conda::coordinator::{Coordinator, Ticket};
use pixi_conda::environment_name::EnvironmentName;
use pixi_conda::reconcile::{
    plan, Action, Environment, Event, FailureKind, Outcome, Plan, PythonStatus, ReadOutcome,
    ReconcileRun, ReconciliationResult, ResolvedRecord,
};
use pixi_conda::satisfaction::{Dependency, InstalledPackageRecord};
use std::path::PathBuf;

fn record(name: &str, version: &str, build: &str) -> InstalledPackageRecord {
    InstalledPackageRecord {
        name: name.to_string(),
        version: version.to_string(),
        build: build.to_string(),
        channel: None,
        size: None,
        files: vec![],
    }
}

fn resolved(name: &str, version: &str, build: &str) -> ResolvedRecord {
    ResolvedRecord {
        name: name.to_string(),
        version: version.to_string(),
        build: build.to_string(),
        channel: None,
        size: None,
    }
}

fn environment(name: &str, dependencies: Vec<(&str, &str)>) -> Environment {
    Environment {
        name: EnvironmentName::from_str(name).unwrap(),
        platform: "linux-64".to_string(),
        channels: vec!["conda-forge".to_string()],
        root: PathBuf::from("/envs").join(name),
        dependencies: dependencies
            .into_iter()
            .map(|(name, version)| Dependency {
                name: name.to_string(),
                specs: vec![DependencySpec::Registry { version: version.to_string(), build: None }],
            })
            .collect(),
    }
}

#[test]
fn satisfied_environment_is_skipped_without_outside_calls() {
    let (mut run, first) = ReconcileRun::new(vec![environment("tools", vec![("python", ">=3.10")])]);
    let mut coordinator = Coordinator::new();
    assert_eq!(first, Action::ReadInstalled { environment: 0 });
    let action = run.step(
        &mut coordinator,
        Event::Installed(ReadOutcome::Present(vec![record("python", "3.12", "h1")])),
    );
    assert_eq!(action, Action::Finished);
    assert_eq!(run.outcomes(), &vec![Outcome::Skipped]);
    assert_eq!(coordinator.get("tools"), None);
    let lock = run.finish().unwrap();
    let entry = lock.get("tools").unwrap();
    assert_eq!(entry.platform, "linux-64");
    assert_eq!(entry.packages.len(), 1);
    assert_eq!(entry.packages[0].name, "python");
}

#[test]
fn unsatisfied_environment_is_solved_then_installed() {
    let (mut run, _) = ReconcileRun::new(vec![environment("tools", vec![("python", ">=3.12")])]);
    let mut coordinator = Coordinator::new();
    let action = run.step(
        &mut coordinator,
        Event::Installed(ReadOutcome::Present(vec![record("python", "3.10", "h1")])),
    );
    assert_eq!(action, Action::Solve { environment: 0 });
    let solved = vec![resolved("python", "3.12", "h2")];
    let action = run.step(&mut coordinator, Event::Solved(Ok(solved.clone())));
    assert_eq!(action, Action::Install { environment: 0, records: solved });
    let installed = vec![record("python", "3.12", "h2")];
    let action = run.step(
        &mut coordinator,
        Event::InstallFinished(Ok((installed.clone(), PythonStatus::Changed))),
    );
    assert_eq!(action, Action::Finished);
    assert_eq!(run.outcomes(), &vec![Outcome::Updated]);
    assert_eq!(
        coordinator.get("tools"),
        Some(&ReconciliationResult::Updated {
            records: installed,
            python_status: PythonStatus::Changed
        })
    );
    let lock = run.finish().unwrap();
    assert_eq!(lock.get("tools").unwrap().packages[0].version, "3.12");
}

#[test]
fn absent_root_is_always_updated() {
    let (mut run, _) = ReconcileRun::new(vec![environment("tools", vec![])]);
    let mut coordinator = Coordinator::new();
    assert_eq!(
        run.step(&mut coordinator, Event::Installed(ReadOutcome::Absent)),
        Action::Solve { environment: 0 }
    );
}

#[test]
fn a_failure_is_collected_and_the_run_goes_on() {
    let (mut run, _) = ReconcileRun::new(vec![
        environment("broken", vec![("python", ">=3.12")]),
        environment("unsolvable", vec![("python", ">=99")]),
        environment("uninstallable", vec![("python", ">=3.12")]),
        environment("fine", vec![("python", ">=3.10")]),
    ]);
    let mut coordinator = Coordinator::new();
    assert_eq!(
        run.step(&mut coordinator, Event::Installed(ReadOutcome::Failed("unreadable".to_string()))),
        Action::ReadInstalled { environment: 1 }
    );
    assert_eq!(
        run.step(&mut coordinator, Event::Installed(ReadOutcome::Absent)),
        Action::Solve { environment: 1 }
    );
    assert_eq!(
        run.step(&mut coordinator, Event::Solved(Err("no solution".to_string()))),
        Action::ReadInstalled { environment: 2 }
    );
    assert_eq!(
        run.step(&mut coordinator, Event::Installed(ReadOutcome::Absent)),
        Action::Solve { environment: 2 }
    );
    assert_eq!(
        run.step(&mut coordinator, Event::Solved(Ok(vec![]))),
        Action::Install { environment: 2, records: vec![] }
    );
    assert_eq!(
        run.step(&mut coordinator, Event::InstallFinished(Err("disk full".to_string()))),
        Action::ReadInstalled { environment: 3 }
    );
    assert_eq!(
        run.step(
            &mut coordinator,
            Event::Installed(ReadOutcome::Present(vec![record("python", "3.12", "h1")]))
        ),
        Action::Finished
    );
    assert_eq!(
        run.outcomes(),
        &vec![Outcome::Failed, Outcome::Failed, Outcome::Failed, Outcome::Skipped]
    );
    assert_eq!(coordinator.get("broken"), None);
    assert!(matches!(
        coordinator.get("unsolvable"),
        Some(ReconciliationResult::Failed { error }) if error.kind == FailureKind::SolveFailed
    ));
    let errors = run.finish().unwrap_err();
    let summary: Vec<(&str, FailureKind, &str)> = errors
        .iter()
        .map(|e| (e.environment.as_str(), e.failure.kind, e.failure.message.as_str()))
        .collect();
    assert_eq!(
        summary,
        vec![
            ("broken", FailureKind::ReadInstalledFailed, "unreadable"),
            ("unsolvable", FailureKind::SolveFailed, "no solution"),
            ("uninstallable", FailureKind::InstallFailed, "disk full"),
        ]
    );
}

#[test]
fn second_run_over_a_successful_first_run_is_idle() {
    let environments = || {
        vec![
            environment("a", vec![("python", ">=3.12")]),
            environment("b", vec![("numpy", ">=2")]),
        ]
    };
    let mut disk: Vec<Option<Vec<InstalledPackageRecord>>> = vec![None, None];
    let mut efforts = vec![];
    for _ in 0..2 {
        let (mut run, mut action) = ReconcileRun::new(environments());
        let mut coordinator = Coordinator::new();
        let mut effort = 0;
        loop {
            let event = match action {
                Action::ReadInstalled { environment } => Event::Installed(match &disk[environment] {
                    Some(records) => ReadOutcome::Present(records.clone()),
                    None => ReadOutcome::Absent,
                }),
                Action::Solve { environment } => {
                    effort += 1;
                    Event::Solved(Ok(vec![if environment == 0 {
                        resolved("python", "3.13", "h0")
                    } else {
                        resolved("numpy", "2.2", "py313")
                    }]))
                }
                Action::Install { environment, records } => {
                    effort += 1;
                    let installed: Vec<InstalledPackageRecord> =
                        records.iter().map(|r| record(&r.name, &r.version, &r.build)).collect();
                    disk[environment] = Some(installed.clone());
                    Event::InstallFinished(Ok((installed, PythonStatus::Added)))
                }
                Action::Finished => break,
                other => panic!("unexpected action {:?}", other),
            };
            action = run.step(&mut coordinator, event);
        }
        assert!(run.finish().is_ok());
        efforts.push(effort);
    }
    assert_eq!(efforts, vec![4, 0]);
}

#[test]
fn an_environment_that_is_resolved_already_is_not_updated_again() {
    let (mut run, _) = ReconcileRun::new(vec![environment("tools", vec![("python", ">=3.12")])]);
    let mut coordinator = Coordinator::new();
    assert_eq!(coordinator.begin("tools"), Ticket::Run);
    coordinator.finish(
        "tools",
        ReconciliationResult::Updated {
            records: vec![record("python", "3.13", "h0")],
            python_status: PythonStatus::Added,
        },
    );
    let action = run.step(&mut coordinator, Event::Installed(ReadOutcome::Absent));
    assert_eq!(action, Action::Finished);
    assert_eq!(run.outcomes(), &vec![Outcome::Updated]);
    assert_eq!(run.finish().unwrap().get("tools").unwrap().packages[0].version, "3.13");
}

#[test]
fn an_environment_that_another_caller_updates_is_waited_for() {
    let (mut run, _) = ReconcileRun::new(vec![environment("tools", vec![("python", ">=3.12")])]);
    let mut coordinator = Coordinator::new();
    assert_eq!(coordinator.begin("tools"), Ticket::Run);
    assert_eq!(
        run.step(&mut coordinator, Event::Installed(ReadOutcome::Absent)),
        Action::Await { environment: 0 }
    );
    assert_eq!(run.step(&mut coordinator, Event::Resolved), Action::Await { environment: 0 });
    coordinator.finish(
        "tools",
        ReconciliationResult::Failed {
            error: pixi_conda::reconcile::Failure {
                kind: FailureKind::InstallFailed,
                message: "no space".to_string(),
            },
        },
    );
    assert_eq!(run.step(&mut coordinator, Event::Resolved), Action::Finished);
    let errors = run.finish().unwrap_err();
    assert_eq!(errors.len(), 1);
    assert_eq!(errors[0].environment, "tools");
    assert_eq!(errors[0].failure.kind, FailureKind::InstallFailed);
    assert_eq!(errors[0].failure.message, "no space");
}

#[test]
fn an_event_out_of_turn_is_ignored() {
    let (mut run, _) = ReconcileRun::new(vec![environment("tools", vec![("python", ">=3.12")])]);
    let mut coordinator = Coordinator::new();
    assert_eq!(run.step(&mut coordinator, Event::Solved(Ok(vec![]))), Action::OutOfTurn);
    assert_eq!(run.step(&mut coordinator, Event::Resolved), Action::OutOfTurn);
    assert_eq!(
        run.step(&mut coordinator, Event::Installed(ReadOutcome::Absent)),
        Action::Solve { environment: 0 }
    );
    assert_eq!(
        run.step(&mut coordinator, Event::Installed(ReadOutcome::Absent)),
        Action::OutOfTurn
    );
}

#[test]
fn a_run_over_nothing_is_finished_at_once() {
    let (mut run, first) = ReconcileRun::new(vec![]);
    assert_eq!(first, Action::Finished);
    let mut coordinator = Coordinator::new();
    assert_eq!(run.step(&mut coordinator, Event::Resolved), Action::OutOfTurn);
    assert_eq!(run.finish().unwrap().len(), 0);
}

#[test]
fn plan_follows_the_scan() {
    let desired = environment("tools", vec![("python", ">=3.10")]).dependencies;
    assert_eq!(plan(&desired, &ReadOutcome::Absent), Plan::Update);
    assert_eq!(plan(&desired, &ReadOutcome::Failed("x".to_string())), Plan::Fail);
    assert_eq!(plan(&desired, &ReadOutcome::Present(vec![])), Plan::Update);
    assert_eq!(
        plan(&desired, &ReadOutcome::Present(vec![record("python", "3.12", "h1")])),
        Plan::Skip
    );
    assert_eq!(plan(&vec![], &ReadOutcome::Present(vec![])), Plan::Skip);
    assert_eq!(plan(&vec![], &ReadOutcome::Absent), Plan::Update);
}

#[test]
fn environments_are_handed_out_by_position() {
    let (run, _) = ReconcileRun::new(vec![environment("a", vec![]), environment("b", vec![])]);
    assert_eq!(run.environment(1).unwrap().name.as_str(), "b");
    assert!(run.environment(2).is_none());
}

#[test]
fn the_python_status_follows_the_versions() {
    let v = |s: &str| Some(s.to_string());
    assert_eq!(PythonStatus::from_versions(&None, &None), PythonStatus::DoesNotExist);
    assert_eq!(PythonStatus::from_versions(&None, &v("3.12")), PythonStatus::Added);
    assert_eq!(PythonStatus::from_versions(&v("3.12"), &None), PythonStatus::Removed);
    assert_eq!(PythonStatus::from_versions(&v("3.12"), &v("3.12")), PythonStatus::Unchanged);
    assert_eq!(PythonStatus::from_versions(&v("3.12"), &v("3.13")), PythonStatus::Changed);
}

#[test]
fn an_environment_with_a_bad_name_is_refused_before_reconciliation() {
    let declared = Environment::new(
        "tools",
        "linux-64".to_string(),
        vec![],
        vec![],
        PathBuf::from("/envs/tools"),
    )
    .unwrap();
    assert_eq!(declared.name.as_str(), "tools");
    assert_eq!(declared.root, PathBuf::from("/envs/tools"));
    assert_eq!(
        Environment::new("my tools", "linux-64".to_string(), vec![], vec![], PathBuf::new()),
        Err(pixi_conda::environment_name::ParseEnvironmentNameError::InvalidCharacter(
            " ".to_string()
        ))
    );
}
