use pixi_conda::manifest::{
    duplicate_mappings, find_exposed, Edit, EditError, Manifest, ManifestEnvironment, Mapping,
};
use pixi_conda::state_changes::{ChangeKind, StateChange, StateChanges};
use pixi_conda::transaction::{
    change_of, Phase, Transaction, TransactionAction, TransactionError, TransactionEvent,
};

fn mapping(exposed: &str, executable: &str) -> Mapping {
    Mapping { exposed_name: exposed.to_string(), executable_name: executable.to_string() }
}

fn manifest() -> Manifest {
    Manifest {
        environments: vec![
            ManifestEnvironment {
                name: "tools".to_string(),
                dependencies: vec![],
                exposed: vec![mapping("python3", "python3"), mapping("py", "python")],
            },
            ManifestEnvironment { name: "other".to_string(), dependencies: vec![], exposed: vec![] },
        ],
    }
}

fn change(environment: &str, kind: ChangeKind, subject: &str) -> StateChange {
    StateChange { environment: environment.to_string(), kind, subject: subject.to_string() }
}

fn changes_of(changes: &StateChanges) -> Vec<StateChange> {
    (0..changes.len()).map(|i| changes.get(i).unwrap().clone()).collect()
}

#[test]
fn adding_a_mapping_appends_it() {
    let mut m = manifest();
    assert_eq!(m.add_exposed_mapping("tools", mapping("python310", "python3.10")), Ok(()));
    assert_eq!(
        m.environments[0].exposed,
        vec![mapping("python3", "python3"), mapping("py", "python"), mapping("python310", "python3.10")]
    );
    assert_eq!(m.environments[1], manifest().environments[1]);
}

#[test]
fn adding_is_refused_for_a_taken_name_or_an_unknown_environment() {
    let mut m = manifest();
    assert_eq!(
        m.add_exposed_mapping("tools", mapping("py", "pypy")),
        Err(EditError::ExposedNameTaken)
    );
    assert_eq!(
        m.add_exposed_mapping("nowhere", mapping("x", "x")),
        Err(EditError::UnknownEnvironment)
    );
    assert_eq!(m, manifest());
}

#[test]
fn removing_a_name_takes_its_mapping_out() {
    let mut m = manifest();
    assert_eq!(m.remove_exposed_name("tools", "python3"), Ok(()));
    assert_eq!(m.environments[0].exposed, vec![mapping("py", "python")]);
}

#[test]
fn removing_is_refused_for_an_unknown_name_or_environment() {
    let mut m = manifest();
    assert_eq!(m.remove_exposed_name("tools", "ruby"), Err(EditError::UnknownExposedName));
    assert_eq!(m.remove_exposed_name("nowhere", "py"), Err(EditError::UnknownEnvironment));
    assert_eq!(m.remove_exposed_name("other", "py"), Err(EditError::UnknownExposedName));
    assert_eq!(m, manifest());
}

#[test]
fn lookups_find_the_first_of_a_name() {
    let m = manifest();
    assert_eq!(m.find_environment("tools"), Some(0));
    assert_eq!(m.find_environment("other"), Some(1));
    assert_eq!(m.find_environment("none"), None);
    assert_eq!(find_exposed(&m.environments[0].exposed, "py"), Some(1));
    assert_eq!(find_exposed(&m.environments[0].exposed, "nope"), None);
}

#[test]
fn a_copy_is_independent_of_the_original() {
    let original = manifest();
    let mut copy = original.duplicate();
    assert_eq!(copy, original);
    copy.add_exposed_mapping("tools", mapping("x", "x")).unwrap();
    assert_eq!(original, manifest());
    assert_ne!(copy, original);
    assert_eq!(duplicate_mappings(&original.environments[0].exposed), original.environments[0].exposed);
}

#[test]
fn a_refused_edit_ends_the_transaction_before_anything_happens() {
    let edits = vec![Edit::AddExposed(mapping("new", "new")), Edit::RemoveExposed("ruby".to_string())];
    let (mut transaction, action) = Transaction::begin(manifest(), "tools", &edits);
    assert_eq!(action, TransactionAction::Finish);
    assert_eq!(transaction.phase(), Phase::Finished);
    assert_eq!(transaction.persisted(), &manifest());
    assert_eq!(transaction.original(), &manifest());
    assert_eq!(transaction.working(), &manifest());
    assert_eq!(
        transaction.step(TransactionEvent::Reconciled(Ok(StateChanges::new()))),
        TransactionAction::OutOfTurn
    );
    assert_eq!(
        transaction.finish(),
        Some(Err(TransactionError::EditFailed(EditError::UnknownExposedName)))
    );
}

#[test]
fn a_successful_edit_is_synchronized_then_persisted() {
    let edits = vec![Edit::AddExposed(mapping("new", "new")), Edit::RemoveExposed("py".to_string())];
    let (mut transaction, action) = Transaction::begin(manifest(), "tools", &edits);
    assert_eq!(action, TransactionAction::Reconcile);
    assert_eq!(transaction.environment(), "tools");
    assert_eq!(transaction.original(), &manifest());
    assert_eq!(
        transaction.working().environments[0].exposed,
        vec![mapping("python3", "python3"), mapping("new", "new")]
    );
    assert_eq!(transaction.persisted(), &manifest());

    let mut synced = StateChanges::new();
    synced.push(change("tools", ChangeKind::UpdatedEnvironment, ""));
    assert_eq!(
        transaction.step(TransactionEvent::Reconciled(Ok(synced))),
        TransactionAction::Persist
    );
    assert_eq!(transaction.persisted(), &manifest());
    assert_eq!(transaction.step(TransactionEvent::Persisted(Ok(()))), TransactionAction::Finish);
    assert_eq!(transaction.persisted().environments[0].exposed.len(), 2);
    assert_eq!(transaction.persisted(), transaction.working());
    let changes = transaction.finish().unwrap().unwrap();
    assert_eq!(
        changes_of(&changes),
        vec![
            change("tools", ChangeKind::AddedExposed, "new"),
            change("tools", ChangeKind::RemovedExposed, "py"),
            change("tools", ChangeKind::UpdatedEnvironment, ""),
        ]
    );
}

#[test]
fn a_failed_synchronization_is_compensated_against_the_original() {
    let edits = vec![Edit::AddExposed(mapping("new", "new"))];
    let (mut transaction, _) = Transaction::begin(manifest(), "tools", &edits);
    assert_eq!(
        transaction.step(TransactionEvent::Reconciled(Err("install failed".to_string()))),
        TransactionAction::Compensate
    );
    assert_eq!(transaction.phase(), Phase::Reverting);
    assert_eq!(transaction.original(), &manifest());
    assert_eq!(transaction.step(TransactionEvent::Compensated(Ok(()))), TransactionAction::Finish);
    assert_eq!(transaction.persisted(), &manifest());
    let error = transaction.finish().unwrap().unwrap_err();
    assert_eq!(error, TransactionError::ReconcileFailed("install failed".to_string()));
    assert!(!error.requires_manual_recovery());
}

#[test]
fn a_failed_compensation_carries_both_errors() {
    let edits = vec![Edit::RemoveExposed("py".to_string())];
    let (mut transaction, _) = Transaction::begin(manifest(), "tools", &edits);
    transaction.step(TransactionEvent::Reconciled(Err("install failed".to_string())));
    assert_eq!(
        transaction.step(TransactionEvent::Compensated(Err("revert failed".to_string()))),
        TransactionAction::Finish
    );
    assert_eq!(transaction.persisted(), &manifest());
    let error = transaction.finish().unwrap().unwrap_err();
    assert_eq!(
        error,
        TransactionError::CompensationFailed {
            original: "install failed".to_string(),
            compensation: "revert failed".to_string()
        }
    );
    assert!(error.requires_manual_recovery());
}

#[test]
fn a_failed_write_is_flagged_and_leaves_the_original_persisted() {
    let edits = vec![Edit::RemoveExposed("py".to_string())];
    let (mut transaction, _) = Transaction::begin(manifest(), "tools", &edits);
    transaction.step(TransactionEvent::Reconciled(Ok(StateChanges::new())));
    assert_eq!(
        transaction.step(TransactionEvent::Persisted(Err("read-only".to_string()))),
        TransactionAction::Finish
    );
    assert_eq!(transaction.persisted(), &manifest());
    let error = transaction.finish().unwrap().unwrap_err();
    assert_eq!(error, TransactionError::PersistFailed("read-only".to_string()));
    assert!(error.requires_manual_recovery());
}

#[test]
fn events_out_of_turn_are_ignored_and_an_unfinished_transaction_has_no_result() {
    let (mut transaction, _) = Transaction::begin(manifest(), "tools", &vec![]);
    assert_eq!(transaction.step(TransactionEvent::Persisted(Ok(()))), TransactionAction::OutOfTurn);
    assert_eq!(
        transaction.step(TransactionEvent::Compensated(Ok(()))),
        TransactionAction::OutOfTurn
    );
    assert_eq!(transaction.phase(), Phase::Syncing);
    assert_eq!(transaction.finish(), None);
}

#[test]
fn an_empty_batch_changes_nothing_but_is_still_synchronized() {
    let (mut transaction, action) = Transaction::begin(manifest(), "missing", &vec![]);
    assert_eq!(action, TransactionAction::Reconcile);
    assert_eq!(transaction.working(), &manifest());
    transaction.step(TransactionEvent::Reconciled(Ok(StateChanges::new())));
    transaction.step(TransactionEvent::Persisted(Ok(())));
    assert!(transaction.finish().unwrap().unwrap().is_empty());
}

#[test]
fn merging_appends_and_is_associative() {
    let part = |names: &[&str]| {
        let mut changes = StateChanges::new();
        for name in names {
            changes.push(change("e", ChangeKind::AddedExposed, name));
        }
        changes
    };
    let mut left = part(&["a"]);
    left.merge(part(&["b", "c"]));
    left.merge(part(&["d"]));
    let mut inner = part(&["b", "c"]);
    inner.merge(part(&["d"]));
    let mut right = part(&["a"]);
    right.merge(inner);
    assert_eq!(left, right);
    assert_eq!(left.len(), 4);
    assert!(!left.is_empty());
    assert_eq!(left.get(3), Some(&change("e", ChangeKind::AddedExposed, "d")));
    assert_eq!(left.get(4), None);
    let mut same = part(&["a"]);
    same.merge(StateChanges::new());
    assert_eq!(same, part(&["a"]));
}

#[test]
fn each_edit_makes_its_change_known() {
    assert_eq!(
        change_of("tools", &Edit::AddExposed(mapping("py", "python"))),
        change("tools", ChangeKind::AddedExposed, "py")
    );
    assert_eq!(
        change_of("tools", &Edit::RemoveExposed("py".to_string())),
        change("tools", ChangeKind::RemovedExposed, "py")
    );
}

#[test]
fn a_mapping_is_written_with_an_equals_sign() {
    assert_eq!(Mapping::parse("python310=python3.10"), mapping("python310", "python3.10"));
    assert_eq!(Mapping::parse("python"), mapping("python", "python"));
    assert_eq!(Mapping::parse("a=b=c"), mapping("a", "b=c"));
    assert_eq!(Mapping::parse("=x"), mapping("", "x"));
    assert_eq!(Mapping::parse("x="), mapping("x", ""));
    assert_eq!(Mapping::parse(""), mapping("", ""));
    assert_eq!(mapping("py", "python").render(), "py=python");
    assert_eq!(Mapping::parse(&mapping("py", "a=b").render()), mapping("py", "a=b"));
}

/// Drives a transaction against an environment whose synchronization fails
/// as `failures` says, call by call, and tells what became of the
/// environment, of the persisted manifest, and of the transaction.
fn drive(
    edits: Vec<Edit>,
    failures: &[bool],
    persist_fails: bool,
) -> (Manifest, Manifest, usize, Option<Result<StateChanges, TransactionError>>) {
    let mut environment = manifest();
    let mut persisted = manifest();
    let mut syncs = 0;
    let (mut transaction, mut action) = Transaction::begin(manifest(), "tools", &edits);
    loop {
        let event = match action {
            TransactionAction::Reconcile | TransactionAction::Compensate => {
                let wanted = if action == TransactionAction::Reconcile {
                    transaction.working().clone()
                } else {
                    transaction.original().clone()
                };
                let fails = failures[syncs];
                syncs += 1;
                let outcome = if fails {
                    environment = Manifest { environments: vec![] };
                    Err(format!("sync {} failed", syncs))
                } else {
                    environment = wanted;
                    Ok(StateChanges::new())
                };
                if action == TransactionAction::Reconcile {
                    TransactionEvent::Reconciled(outcome)
                } else {
                    TransactionEvent::Compensated(outcome.map(|_| ()))
                }
            }
            TransactionAction::Persist => {
                if persist_fails {
                    TransactionEvent::Persisted(Err("disk full".to_string()))
                } else {
                    persisted = transaction.working().clone();
                    TransactionEvent::Persisted(Ok(()))
                }
            }
            TransactionAction::Finish => break,
            TransactionAction::OutOfTurn => panic!("the engine lost its turn"),
        };
        action = transaction.step(event);
    }
    assert_eq!(transaction.persisted(), &persisted);
    (environment, persisted, syncs, transaction.finish())
}

#[test]
fn after_a_compensated_failure_the_environment_matches_the_persisted_manifest() {
    let edits = vec![Edit::AddExposed(mapping("new", "new"))];
    let (environment, persisted, syncs, result) = drive(edits, &[true, false], false);
    assert_eq!(syncs, 2);
    assert_eq!(persisted, manifest());
    assert_eq!(environment, manifest());
    assert_eq!(
        result,
        Some(Err(TransactionError::ReconcileFailed("sync 1 failed".to_string())))
    );
}

#[test]
fn after_a_success_the_environment_matches_the_persisted_manifest() {
    let edits = vec![Edit::AddExposed(mapping("new", "new"))];
    let (environment, persisted, syncs, result) = drive(edits, &[false], false);
    assert_eq!(syncs, 1);
    assert_ne!(persisted, manifest());
    assert_eq!(environment, persisted);
    assert!(matches!(result, Some(Ok(_))));
}

#[test]
fn a_refused_edit_makes_no_synchronization_and_no_write() {
    let edits = vec![Edit::RemoveExposed("missing".to_string())];
    let (environment, persisted, syncs, result) = drive(edits, &[], false);
    assert_eq!(syncs, 0);
    assert_eq!(persisted, manifest());
    assert_eq!(environment, manifest());
    assert_eq!(result, Some(Err(TransactionError::EditFailed(EditError::UnknownExposedName))));
}

#[test]
fn only_a_failed_compensation_or_write_leaves_the_two_out_of_step() {
    let edits = || vec![Edit::AddExposed(mapping("new", "new"))];
    let (environment, persisted, syncs, result) = drive(edits(), &[true, true], false);
    assert_eq!(syncs, 2);
    assert_ne!(environment, persisted);
    let error = result.unwrap().unwrap_err();
    assert_eq!(
        error,
        TransactionError::CompensationFailed {
            original: "sync 1 failed".to_string(),
            compensation: "sync 2 failed".to_string()
        }
    );
    assert!(error.requires_manual_recovery());

    let (environment, persisted, _, result) = drive(edits(), &[false], true);
    assert_ne!(environment, persisted);
    assert_eq!(persisted, manifest());
    assert!(result.unwrap().unwrap_err().requires_manual_recovery());
}
