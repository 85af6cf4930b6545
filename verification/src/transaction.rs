//! The transactional mutation engine. A batch of edits is made on a private
//! copy of the manifest; the affected environment is then brought in step
//! with the copy, and only if that succeeds does the copy become the
//! persisted manifest. If it fails, the environment is brought back in step
//! with the untouched original. Synchronizing and persisting are the
//! caller's: the engine says what to do next and is told how it went.

use crate::manifest::{
    edit_models, edited, edited_all, Edit, EditError, EditModel, EnvironmentModel, Manifest,
};
use crate::state_changes::{ChangeKind, ChangeModel, StateChange, StateChanges};
use vstd::prelude::*;
use vstd::string::*;

verus! {

/// Why a manifest edit did not go through.
#[derive(Debug, Clone, PartialEq, Eq)]
pub enum TransactionError {
    /// An edit was refused. Nothing was synchronized and nothing persisted.
    EditFailed(EditError),
    /// Synchronizing the environment with the edited manifest failed, with
    /// this message. The environment was brought back in step with the
    /// original manifest, which is still the persisted one.
    ReconcileFailed(String),
    /// Synchronizing failed, and so did bringing the environment back. The
    /// environment may now disagree with the persisted manifest.
    CompensationFailed { original: String, compensation: String },
    /// The environment is in step with the edited manifest, but writing that
    /// manifest failed, with this message: the persisted manifest is still
    /// the original one.
    PersistFailed(String),
}

impl TransactionError {
    /// Whether the error leaves the environment and the persisted manifest
    /// out of step, so that someone has to repair them by hand.
    pub open spec fn is_inconsistent(&self) -> bool {
        self is CompensationFailed || self is PersistFailed
    }

    /// Tells whether the error calls for recovery by hand.
    pub fn requires_manual_recovery(&self) -> (r: bool)
        ensures
            r == self.is_inconsistent(),
    {
        match self {
            TransactionError::CompensationFailed { .. } => true,
            TransactionError::PersistFailed(_) => true,
            TransactionError::EditFailed(_) => false,
            TransactionError::ReconcileFailed(_) => false,
        }
    }
}

/// What the engine waits for.
#[derive(Debug, Clone, Copy, PartialEq, Eq, Structural)]
pub enum Phase {
    /// The synchronization of the environment with the edited manifest.
    Syncing,
    /// The synchronization of the environment with the original manifest,
    /// after the first one failed.
    Reverting,
    /// The writing of the edited manifest.
    Persisting,
    /// Nothing: the result is there.
    Finished,
}

/// What the caller reports to the engine.
#[derive(Debug, PartialEq, Eq)]
pub enum TransactionEvent {
    /// The synchronization with the edited manifest ended, with what it
    /// changed or an error message.
    Reconciled(Result<StateChanges, String>),
    /// The synchronization with the original manifest ended.
    Compensated(Result<(), String>),
    /// The writing of the edited manifest ended.
    Persisted(Result<(), String>),
}

/// What the engine asks of the caller.
#[derive(Debug, Clone, Copy, PartialEq, Eq, Structural)]
pub enum TransactionAction {
    /// Synchronize the environment with the working manifest and report
    /// `Reconciled`.
    Reconcile,
    /// Synchronize the environment with the original manifest and report
    /// `Compensated`.
    Compensate,
    /// Write the working manifest, all or nothing, and report `Persisted`.
    Persist,
    /// Nothing more: take the result.
    Finish,
    /// The event was not the one waited for and was ignored.
    OutOfTurn,
}

/// The state of a transaction, as its contracts speak of it.
pub struct TransactionModel {
    pub phase: Phase,
    /// The manifest as it was before the edits. It never changes.
    pub original: Seq<EnvironmentModel>,
    /// The manifest with the edits made.
    pub working: Seq<EnvironmentModel>,
    /// The name of the environment that the edits are about.
    pub environment: Seq<char>,
    /// What the operation changed so far.
    pub changes: Seq<ChangeModel>,
    /// The message of the failed synchronization, while it is being
    /// compensated.
    pub failure: Option<String>,
    /// Why the transaction failed, once it has.
    pub error: Option<TransactionError>,
}

impl TransactionModel {
    /// The manifest that is persisted when the caller has done what it was
    /// asked and no more: the working manifest once it was written, the
    /// original one in every other case.
    pub open spec fn persisted(&self) -> Seq<EnvironmentModel> {
        if self.phase == Phase::Finished && self.error is None {
            self.working
        } else {
            self.original
        }
    }
}

/// The change that an edit of `environment` makes known.
pub open spec fn edit_change(environment: Seq<char>, edit: EditModel) -> ChangeModel {
    match edit {
        EditModel::AddExposed(mapping) => ChangeModel {
            environment,
            kind: ChangeKind::AddedExposed,
            subject: mapping.exposed_name,
        },
        EditModel::RemoveExposed(name) => ChangeModel {
            environment,
            kind: ChangeKind::RemovedExposed,
            subject: name,
        },
    }
}

/// The changes that edits of `environment` make known.
pub open spec fn edit_changes(environment: Seq<char>, edits: Seq<EditModel>) -> Seq<ChangeModel> {
    edits.map_values(|e: EditModel| edit_change(environment, e))
}

/// Where a transaction starts: with the edits made it waits for the
/// synchronization; with an edit refused it is finished, and its working
/// manifest is the original again.
pub open spec fn started(
    original: Seq<EnvironmentModel>,
    environment: Seq<char>,
    edits: Seq<EditModel>,
) -> TransactionModel {
    match edited_all(original, environment, edits) {
        Ok(working) => TransactionModel {
            phase: Phase::Syncing,
            original,
            working,
            environment,
            changes: edit_changes(environment, edits),
            failure: None,
            error: None,
        },
        Err(e) => TransactionModel {
            phase: Phase::Finished,
            original,
            working: original,
            environment,
            changes: Seq::empty(),
            failure: None,
            error: Some(TransactionError::EditFailed(e)),
        },
    }
}

/// What the engine asks for first.
pub open spec fn first_action(
    original: Seq<EnvironmentModel>,
    environment: Seq<char>,
    edits: Seq<EditModel>,
) -> TransactionAction {
    if edited_all(original, environment, edits) is Ok {
        TransactionAction::Reconcile
    } else {
        TransactionAction::Finish
    }
}

/// The engine's rule: where an event takes a transaction, and what is asked
/// next.
pub open spec fn next(before: TransactionModel, event: TransactionEvent) -> (
    TransactionModel,
    TransactionAction,
) {
    match (before.phase, event) {
        (Phase::Syncing, TransactionEvent::Reconciled(Ok(changes))) => (
            TransactionModel {
                phase: Phase::Persisting,
                changes: before.changes + changes@,
                ..before
            },
            TransactionAction::Persist,
        ),
        (Phase::Syncing, TransactionEvent::Reconciled(Err(message))) => (
            TransactionModel { phase: Phase::Reverting, failure: Some(message), ..before },
            TransactionAction::Compensate,
        ),
        (Phase::Reverting, TransactionEvent::Compensated(Ok(_))) => (
            TransactionModel {
                phase: Phase::Finished,
                failure: None,
                error: Some(TransactionError::ReconcileFailed(before.failure->Some_0)),
                ..before
            },
            TransactionAction::Finish,
        ),
        (Phase::Reverting, TransactionEvent::Compensated(Err(message))) => (
            TransactionModel {
                phase: Phase::Finished,
                failure: None,
                error: Some(
                    TransactionError::CompensationFailed {
                        original: before.failure->Some_0,
                        compensation: message,
                    },
                ),
                ..before
            },
            TransactionAction::Finish,
        ),
        (Phase::Persisting, TransactionEvent::Persisted(Ok(_))) => (
            TransactionModel { phase: Phase::Finished, ..before },
            TransactionAction::Finish,
        ),
        (Phase::Persisting, TransactionEvent::Persisted(Err(message))) => (
            TransactionModel {
                phase: Phase::Finished,
                error: Some(TransactionError::PersistFailed(message)),
                ..before
            },
            TransactionAction::Finish,
        ),
        _ => (before, TransactionAction::OutOfTurn),
    }
}

/// A manifest edit under way.
pub struct Transaction {
    original: Manifest,
    working: Manifest,
    environment: String,
    phase: Phase,
    changes: StateChanges,
    failure: Option<String>,
    error: Option<TransactionError>,
}

impl View for Transaction {
    type V = TransactionModel;

    closed spec fn view(&self) -> TransactionModel {
        TransactionModel {
            phase: self.phase,
            original: self.original@,
            working: self.working@,
            environment: self.environment@,
            changes: self.changes@,
            failure: self.failure,
            error: self.error,
        }
    }
}

impl Transaction {
    /// While a failed synchronization is compensated, its message is kept.
    pub closed spec fn wf(&self) -> bool {
        self.phase == Phase::Reverting ==> self.failure is Some
    }

    /// Starts a transaction: copies `original`, makes `edits` on the copy in
    /// order, and says what to do first. If an edit is refused the
    /// transaction is finished at once, with nothing to synchronize and
    /// nothing to persist.
    pub fn begin(original: Manifest, environment: &str, edits: &Vec<Edit>) -> (r: (
        Transaction,
        TransactionAction,
    ))
        ensures
            r.0.wf(),
            r.0@ == started(original@, environment@, edit_models(edits@)),
            r.1 == first_action(original@, environment@, edit_models(edits@)),
    {
        let mut working = original.duplicate();
        let mut changes = StateChanges::new();
        let ghost models = edit_models(edits@);
        let mut i: usize = 0;
        assert(models.skip(0) =~= models);
        assert(changes@ =~= edit_changes(environment@, models.take(0)));
        while i < edits.len()
            invariant
                0 <= i <= edits.len(),
                models == edit_models(edits@),
                edited_all(original@, environment@, models) == edited_all(
                    working@,
                    environment@,
                    models.skip(i as int),
                ),
                changes@ == edit_changes(environment@, models.take(i as int)),
            decreases edits.len() - i,
        {
            let ghost rest = models.skip(i as int);
            assert(rest[0] == edits@[i as int]@);
            assert(rest.drop_first() =~= models.skip(i + 1));
            match working.apply(environment, &edits[i]) {
                Ok(()) => {
                    changes.push(change_of(environment, &edits[i]));
                    assert(changes@ =~= edit_changes(environment@, models.take(i + 1))) by {
                        assert(models.take(i + 1) =~= models.take(i as int).push(models[i as int]));
                    }
                },
                Err(e) => {
                    let restored = original.duplicate();
                    let r = Transaction {
                        original,
                        working: restored,
                        environment: String::from_str(environment),
                        phase: Phase::Finished,
                        changes: StateChanges::new(),
                        failure: None,
                        error: Some(TransactionError::EditFailed(e)),
                    };
                    return (r, TransactionAction::Finish);
                },
            }
            i += 1;
        }
        assert(models.skip(edits@.len() as int).len() == 0);
        assert(models.take(edits@.len() as int) =~= models);
        let r = Transaction {
            original,
            working,
            environment: String::from_str(environment),
            phase: Phase::Syncing,
            changes,
            failure: None,
            error: None,
        };
        (r, TransactionAction::Reconcile)
    }

    /// Takes the report of what the engine last asked for, and says what to
    /// do next.
    pub fn step(&mut self, event: TransactionEvent) -> (action: TransactionAction)
        requires
            old(self).wf(),
        ensures
            final(self).wf(),
            (final(self)@, action) == next(old(self)@, event),
    {
        match self.phase {
            Phase::Syncing => match event {
                TransactionEvent::Reconciled(Ok(changes)) => {
                    self.changes.merge(changes);
                    self.phase = Phase::Persisting;
                    TransactionAction::Persist
                },
                TransactionEvent::Reconciled(Err(message)) => {
                    self.failure = Some(message);
                    self.phase = Phase::Reverting;
                    TransactionAction::Compensate
                },
                _ => TransactionAction::OutOfTurn,
            },
            Phase::Reverting => match event {
                TransactionEvent::Compensated(outcome) => {
                    let original = self.failure.take().unwrap();
                    self.error = Some(
                        match outcome {
                            Ok(_) => TransactionError::ReconcileFailed(original),
                            Err(compensation) => TransactionError::CompensationFailed {
                                original,
                                compensation,
                            },
                        },
                    );
                    self.phase = Phase::Finished;
                    TransactionAction::Finish
                },
                _ => TransactionAction::OutOfTurn,
            },
            Phase::Persisting => match event {
                TransactionEvent::Persisted(outcome) => {
                    match outcome {
                        Ok(_) => {},
                        Err(message) => {
                            self.error = Some(TransactionError::PersistFailed(message));
                        },
                    }
                    self.phase = Phase::Finished;
                    TransactionAction::Finish
                },
                _ => TransactionAction::OutOfTurn,
            },
            Phase::Finished => TransactionAction::OutOfTurn,
        }
    }

    /// The manifest as it was before the edits.
    pub fn original(&self) -> (r: &Manifest)
        ensures
            r@ == self@.original,
    {
        &self.original
    }

    /// The manifest with the edits made.
    pub fn working(&self) -> (r: &Manifest)
        ensures
            r@ == self@.working,
    {
        &self.working
    }

    /// The name of the environment that the edits are about.
    pub fn environment(&self) -> (r: &str)
        ensures
            r@ == self@.environment,
    {
        self.environment.as_str()
    }

    /// What the engine waits for.
    pub fn phase(&self) -> (r: Phase)
        ensures
            r == self@.phase,
    {
        self.phase
    }

    /// The manifest that is persisted now, if the caller did what it was
    /// asked and no more.
    pub fn persisted(&self) -> (r: &Manifest)
        ensures
            r@ == self@.persisted(),
    {
        match (self.phase, &self.error) {
            (Phase::Finished, None) => &self.working,
            _ => &self.original,
        }
    }

    /// The result of a finished transaction: what the operation changed, or
    /// why it failed. An unfinished transaction has none.
    pub fn finish(self) -> (r: Option<Result<StateChanges, TransactionError>>)
        ensures
            r is Some <==> self@.phase == Phase::Finished,
            r matches Some(Ok(changes)) ==> self@.error is None && changes@ == self@.changes,
            r matches Some(Err(e)) ==> self@.error == Some(e),
    {
        match self.phase {
            Phase::Finished => match self.error {
                Some(e) => Some(Err(e)),
                None => Some(Ok(self.changes)),
            },
            _ => None,
        }
    }
}

/// The change that an edit of `environment` makes known.
pub fn change_of(environment: &str, edit: &Edit) -> (r: StateChange)
    ensures
        r@ == edit_change(environment@, edit@),
{
    match edit {
        Edit::AddExposed(mapping) => StateChange {
            environment: String::from_str(environment),
            kind: ChangeKind::AddedExposed,
            subject: mapping.exposed_name.clone(),
        },
        Edit::RemoveExposed(name) => StateChange {
            environment: String::from_str(environment),
            kind: ChangeKind::RemovedExposed,
            subject: name.clone(),
        },
    }
}

/// A refused edit ends the transaction before anything is asked of the
/// caller: the first action is to take the result, the error names the
/// refusal, and the persisted manifest is the original one.
pub proof fn lemma_refused_edit_is_atomic(
    original: Seq<EnvironmentModel>,
    environment: Seq<char>,
    edits: Seq<EditModel>,
)
    requires
        edited_all(original, environment, edits) is Err,
    ensures
        first_action(original, environment, edits) == TransactionAction::Finish,
        started(original, environment, edits).phase == Phase::Finished,
        started(original, environment, edits).error == Some(
            TransactionError::EditFailed(edited_all(original, environment, edits)->Err_0),
        ),
        started(original, environment, edits).persisted() == original,
{
}

/// A finished transaction stays as it is: whatever is reported to it, it
/// asks for no synchronization and no writing, and its result and the
/// persisted manifest do not change.
pub proof fn lemma_finished_is_final(before: TransactionModel, event: TransactionEvent)
    requires
        before.phase == Phase::Finished,
    ensures
        next(before, event) == (before, TransactionAction::OutOfTurn),
{
}

/// The original manifest is never changed, and the working manifest is
/// never changed once the edits are made.
pub proof fn lemma_manifests_are_kept(before: TransactionModel, event: TransactionEvent)
    ensures
        next(before, event).0.original == before.original,
        next(before, event).0.working == before.working,
        next(before, event).0.environment == before.environment,
{
}

/// The working manifest is asked to be written only after a synchronization
/// with it succeeded.
pub proof fn lemma_persist_follows_sync(before: TransactionModel, event: TransactionEvent)
    ensures
        next(before, event).1 == TransactionAction::Persist <==> before.phase == Phase::Syncing
            && event matches TransactionEvent::Reconciled(Ok(_)),
        next(before, event).1 == TransactionAction::Compensate <==> before.phase == Phase::Syncing
            && event matches TransactionEvent::Reconciled(Err(_)),
        next(before, event).1 != TransactionAction::Reconcile,
{
}

/// If the synchronization with the edited manifest fails and the
/// compensation succeeds, the caller was asked to synchronize the
/// environment with the original manifest, nothing was asked to be written,
/// the persisted manifest is the original one, and the error is that of the
/// failed synchronization.
pub proof fn lemma_failed_sync_is_compensated(before: TransactionModel, message: String)
    requires
        before.phase == Phase::Syncing,
    ensures
        ({
            let (reverting, first) = next(before, TransactionEvent::Reconciled(Err(message)));
            let (after, second) = next(reverting, TransactionEvent::Compensated(Ok(())));
            &&& first == TransactionAction::Compensate
            &&& reverting.original == before.original
            &&& reverting.environment == before.environment
            &&& second == TransactionAction::Finish
            &&& after.phase == Phase::Finished
            &&& after.error == Some(TransactionError::ReconcileFailed(message))
            &&& after.persisted() == before.original
        }),
{
}

/// If the compensation fails as well, the error carries both messages, that
/// of the failed synchronization and that of the failed compensation, and
/// calls for recovery by hand.
pub proof fn lemma_failed_compensation_carries_both(
    before: TransactionModel,
    message: String,
    compensation: String,
)
    requires
        before.phase == Phase::Syncing,
    ensures
        ({
            let (reverting, first) = next(before, TransactionEvent::Reconciled(Err(message)));
            let (after, second) = next(reverting, TransactionEvent::Compensated(Err(compensation)));
            &&& first == TransactionAction::Compensate
            &&& second == TransactionAction::Finish
            &&& after.phase == Phase::Finished
            &&& after.error == Some(
                TransactionError::CompensationFailed { original: message, compensation },
            )
            &&& after.error->Some_0.is_inconsistent()
            &&& after.persisted() == before.original
        }),
{
}

/// If everything succeeds, the working manifest is the persisted one and the
/// result holds the changes of the edits followed by those of the
/// synchronization.
pub proof fn lemma_success_commits(before: TransactionModel, changes: StateChanges)
    requires
        before.phase == Phase::Syncing,
        before.error is None,
    ensures
        ({
            let (persisting, first) = next(before, TransactionEvent::Reconciled(Ok(changes)));
            let (after, second) = next(persisting, TransactionEvent::Persisted(Ok(())));
            &&& first == TransactionAction::Persist
            &&& second == TransactionAction::Finish
            &&& after.phase == Phase::Finished
            &&& after.error is None
            &&& after.changes == before.changes + changes@
            &&& after.persisted() == before.working
        }),
{
}

/// If the writing fails after a successful synchronization, the persisted
/// manifest is still the original one and the error calls for recovery by
/// hand.
pub proof fn lemma_failed_persist_is_flagged(
    before: TransactionModel,
    changes: StateChanges,
    message: String,
)
    requires
        before.phase == Phase::Syncing,
    ensures
        ({
            let (persisting, first) = next(before, TransactionEvent::Reconciled(Ok(changes)));
            let (after, second) = next(persisting, TransactionEvent::Persisted(Err(message)));
            &&& after.error == Some(TransactionError::PersistFailed(message))
            &&& after.error->Some_0.is_inconsistent()
            &&& after.persisted() == before.original
        }),
{
}

} // verus!
