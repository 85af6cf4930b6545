//! The reconciliation driver. For each environment in turn it reads what is
//! installed, skips the environment where that already satisfies what is
//! desired, and otherwise has it solved and installed, once per environment.
//! The reading, solving and installing are the caller's: the driver says what
//! to do next and is told how it went.

use crate::coordinator::{
    begin_cells, finish_cells, is_resolved, Cell, Coordinator, Ticket,
};
use crate::environment_name::{
    first_invalid, is_valid_name, EnvironmentName, ParseEnvironmentNameError,
};
use crate::lock::{is_published, EntryModel, LockArtifact};
use crate::ordering::texts;
use crate::satisfaction::{
    all_portable, dependencies_satisfied, is_possibly_satisfied, is_satisfied, is_surely_satisfied,
    is_verdict, lemma_portable_is_exact, Dependency, InstalledPackageRecord,
};
use std::path::PathBuf;
use vstd::prelude::*;

verus! {

/// What an update did to the environment's Python interpreter.
#[derive(Debug, Clone, Copy, PartialEq, Eq, Structural)]
pub enum PythonStatus {
    Changed,
    Unchanged,
    Removed,
    Added,
    DoesNotExist,
}

/// What the change from one Python version to another amounts to, each
/// given where the environment has a Python at all.
pub open spec fn python_status_of(before: Option<Seq<char>>, after: Option<Seq<char>>) -> PythonStatus {
    match (before, after) {
        (None, None) => PythonStatus::DoesNotExist,
        (None, Some(_)) => PythonStatus::Added,
        (Some(_), None) => PythonStatus::Removed,
        (Some(earlier), Some(later)) => if earlier == later {
            PythonStatus::Unchanged
        } else {
            PythonStatus::Changed
        },
    }
}

impl PythonStatus {
    /// Tells what an update did to the environment's Python, from the
    /// version that was installed before and the one that is installed now.
    pub fn from_versions(before: &Option<String>, after: &Option<String>) -> (r: PythonStatus)
        ensures
            r == python_status_of(
                match before {
                    Some(v) => Some(v@),
                    None => None,
                },
                match after {
                    Some(v) => Some(v@),
                    None => None,
                },
            ),
    {
        match (before, after) {
            (None, None) => PythonStatus::DoesNotExist,
            (None, Some(_)) => PythonStatus::Added,
            (Some(_), None) => PythonStatus::Removed,
            (Some(earlier), Some(later)) => if *earlier == *later {
                PythonStatus::Unchanged
            } else {
                PythonStatus::Changed
            },
        }
    }
}

/// A package that the solver chose for an environment.
#[derive(Debug, Clone, PartialEq, Eq)]
pub struct ResolvedRecord {
    pub name: String,
    pub version: String,
    pub build: String,
    pub channel: Option<String>,
    pub size: Option<u64>,
}

/// A named environment as its manifest declares it.
#[derive(Debug, PartialEq, Eq)]
pub struct Environment {
    pub name: EnvironmentName,
    /// The platform that its packages are built for.
    pub platform: String,
    /// The channels that its packages come from.
    pub channels: Vec<String>,
    /// What it desires.
    pub dependencies: Vec<Dependency>,
    /// The directory that it is installed in.
    pub root: PathBuf,
}

impl Environment {
    /// Declares an environment. A name that holds a forbidden character is
    /// refused here, before any reconciliation.
    pub fn new(
        name: &str,
        platform: String,
        channels: Vec<String>,
        dependencies: Vec<Dependency>,
        root: PathBuf,
    ) -> (r: Result<Environment, ParseEnvironmentNameError>)
        ensures
            r is Ok <==> is_valid_name(name@),
            r matches Ok(e) ==> e.name@ == name@ && e.platform == platform && e.channels
                == channels && e.dependencies == dependencies && e.root == root,
            r matches Err(e) ==> e->InvalidCharacter_0@ == seq![name@[first_invalid(name@)]],
    {
        match EnvironmentName::from_str(name) {
            Ok(name) => Ok(Environment { name, platform, channels, dependencies, root }),
            Err(e) => Err(e),
        }
    }
}

/// The step of an environment's reconciliation that failed.
#[derive(Debug, Clone, Copy, PartialEq, Eq, Structural)]
pub enum FailureKind {
    /// The environment's root exists but could not be scanned.
    ReadInstalledFailed,
    /// The solver found no solution or broke.
    SolveFailed,
    /// The installer broke.
    InstallFailed,
}

/// Why the reconciliation of an environment failed.
#[derive(Debug, Clone, PartialEq, Eq)]
pub struct Failure {
    pub kind: FailureKind,
    pub message: String,
}

/// A failure together with the name of the environment it befell.
#[derive(Debug, Clone, PartialEq, Eq)]
pub struct EnvironmentError {
    pub environment: String,
    pub failure: Failure,
}

/// What an environment's error says.
pub struct ErrorModel {
    pub environment: Seq<char>,
    pub kind: FailureKind,
    pub message: Seq<char>,
}

impl View for EnvironmentError {
    type V = ErrorModel;

    open spec fn view(&self) -> ErrorModel {
        ErrorModel {
            environment: self.environment@,
            kind: self.failure.kind,
            message: self.failure.message@,
        }
    }
}

/// What errors say.
pub open spec fn error_models(errors: Seq<EnvironmentError>) -> Seq<ErrorModel> {
    errors.map_values(|e: EnvironmentError| e@)
}

/// How the reconciliation of one environment ended.
#[derive(Debug, Clone, PartialEq, Eq)]
pub enum ReconciliationResult {
    /// What was installed satisfied what was desired.
    Skipped,
    /// The environment was solved and installed; these are its records now.
    Updated { records: Vec<InstalledPackageRecord>, python_status: PythonStatus },
    /// A step failed.
    Failed { error: Failure },
}

/// What scanning an environment's root gave.
#[derive(Debug, Clone, PartialEq, Eq)]
pub enum ReadOutcome {
    /// There is no environment at the root.
    Absent,
    /// These packages are installed.
    Present(Vec<InstalledPackageRecord>),
    /// The root is there but could not be scanned.
    Failed(String),
}

/// What to do with an environment once its root was scanned.
#[derive(Debug, Clone, Copy, PartialEq, Eq, Structural)]
pub enum Plan {
    /// Nothing: it is satisfied.
    Skip,
    /// Solve and install.
    Update,
    /// Give up on it: it could not be scanned.
    Fail,
}

/// How an environment's pass ended, without the details.
#[derive(Debug, Clone, Copy, PartialEq, Eq, Structural)]
pub enum Outcome {
    Skipped,
    Updated,
    Failed,
}

/// What the driver waits for.
#[derive(Debug, Clone, Copy, PartialEq, Eq, Structural)]
pub enum Stage {
    /// The scan of the current environment's root.
    Reading,
    /// Another caller's update of the current environment.
    Waiting,
    /// The solution for the current environment.
    Solving,
    /// The installation into the current environment.
    Installing,
    /// Nothing: every environment was gone through.
    Done,
}

/// What the caller reports to the driver.
#[derive(Debug, PartialEq, Eq)]
pub enum Event {
    /// The scan of the current environment's root ended.
    Installed(ReadOutcome),
    /// The update that was waited for may have reported.
    Resolved,
    /// The solver ended, with the chosen packages or an error message.
    Solved(Result<Vec<ResolvedRecord>, String>),
    /// The installer ended, with what is installed now or an error message.
    InstallFinished(Result<(Vec<InstalledPackageRecord>, PythonStatus), String>),
}

/// What the driver asks of the caller.
#[derive(Debug, PartialEq, Eq)]
pub enum Action {
    /// Scan the root of this environment and report `Installed`.
    ReadInstalled { environment: usize },
    /// Wait for the other caller's update of this environment and report
    /// `Resolved`.
    Await { environment: usize },
    /// Solve this environment and report `Solved`.
    Solve { environment: usize },
    /// Install these packages into this environment and report
    /// `InstallFinished`.
    Install { environment: usize, records: Vec<ResolvedRecord> },
    /// Nothing more: call `finish`.
    Finished,
    /// The event was not the one waited for and was ignored.
    OutOfTurn,
}

/// The plan for an environment, given the scan of its root and whether what
/// the scan found satisfies what the environment desires. A root that is
/// absent holds no records and is always updated.
pub open spec fn plan_given(installed: ReadOutcome, satisfied: bool) -> Plan {
    match installed {
        ReadOutcome::Failed(_) => Plan::Fail,
        ReadOutcome::Absent => Plan::Update,
        ReadOutcome::Present(_) => if satisfied {
            Plan::Skip
        } else {
            Plan::Update
        },
    }
}

/// The plan for an environment with these desired dependencies, given the
/// scan of its root, where the first spec of every dependency is portable.
pub open spec fn plan_of(desired: Seq<Dependency>, installed: ReadOutcome) -> Plan {
    plan_given(
        installed,
        installed matches ReadOutcome::Present(records) && is_satisfied(desired, records@),
    )
}

/// Whether `satisfied` may be the answer to whether what the scan found
/// satisfies the desired dependencies. Of a scan that found no records to
/// look at, any answer will do.
pub open spec fn is_scan_verdict(desired: Seq<Dependency>, installed: ReadOutcome, satisfied: bool) -> bool {
    installed matches ReadOutcome::Present(records) ==> is_verdict(desired, records@, satisfied)
}

/// Whether `plan` may be the plan for an environment with these desired
/// dependencies, given the scan of its root: it follows from an answer that
/// the satisfaction check may give.
pub open spec fn is_plan(desired: Seq<Dependency>, installed: ReadOutcome, plan: Plan) -> bool {
    exists|satisfied: bool|
        plan == #[trigger] plan_given(installed, satisfied) && is_scan_verdict(
            desired,
            installed,
            satisfied,
        )
}

/// Decides what to do with an environment once its root was scanned. Where
/// the first spec of every dependency is portable the plan is the named one.
pub fn plan(desired: &Vec<Dependency>, installed: &ReadOutcome) -> (r: Plan)
    ensures
        is_plan(desired@, *installed, r),
        all_portable(desired@) ==> r == plan_of(desired@, *installed),
{
    match installed {
        ReadOutcome::Failed(_) => {
            assert(Plan::Fail == plan_given(*installed, true));
            Plan::Fail
        },
        ReadOutcome::Absent => {
            assert(Plan::Update == plan_given(*installed, true));
            Plan::Update
        },
        ReadOutcome::Present(records) => {
            let satisfied = dependencies_satisfied(desired, records);
            assert(is_scan_verdict(desired@, *installed, satisfied));
            if satisfied {
                assert(Plan::Skip == plan_given(*installed, satisfied));
                Plan::Skip
            } else {
                assert(Plan::Update == plan_given(*installed, satisfied));
                Plan::Update
            }
        },
    }
}

/// The state of a run, as its contracts speak of it.
pub struct RunModel {
    /// The environments of the run, in the order of their passes.
    pub environments: Seq<Environment>,
    /// The position of the environment whose pass is under way.
    pub current: int,
    /// What the run waits for.
    pub stage: Stage,
    /// The lock artifact so far.
    pub lock: Map<Seq<char>, EntryModel>,
    /// The failures so far, in the order of the environments.
    pub errors: Seq<ErrorModel>,
    /// How the pass of each environment before the current one ended.
    pub outcomes: Seq<Outcome>,
}

/// What the driver asks for once the pass of the current environment has
/// ended, and where it stands then.
pub open spec fn is_advanced(before: RunModel, after: RunModel, count: int, action: Action) -> bool {
    &&& after.environments == before.environments
    &&& after.current == before.current + 1
    &&& after.current < count ==> after.stage == Stage::Reading && action == (Action::ReadInstalled {
        environment: after.current as usize,
    })
    &&& after.current >= count ==> after.stage == Stage::Done && action == Action::Finished
}

/// The current environment's pass ended without an update, and what was
/// found installed was published.
pub open spec fn is_skipped(
    environment: Environment,
    before: RunModel,
    after: RunModel,
    count: int,
    action: Action,
    records: Seq<InstalledPackageRecord>,
) -> bool {
    &&& is_advanced(before, after, count, action)
    &&& after.outcomes == before.outcomes.push(Outcome::Skipped)
    &&& after.errors == before.errors
    &&& is_published(
        before.lock,
        after.lock,
        environment.name@,
        environment.platform@,
        texts(environment.channels@),
        records,
    )
}

/// The current environment's pass ended with an update, and what is
/// installed now was published.
pub open spec fn is_updated(
    environment: Environment,
    before: RunModel,
    after: RunModel,
    count: int,
    action: Action,
    records: Seq<InstalledPackageRecord>,
) -> bool {
    &&& is_advanced(before, after, count, action)
    &&& after.outcomes == before.outcomes.push(Outcome::Updated)
    &&& after.errors == before.errors
    &&& is_published(
        before.lock,
        after.lock,
        environment.name@,
        environment.platform@,
        texts(environment.channels@),
        records,
    )
}

/// The current environment's pass ended with a failure, which was collected;
/// the lock artifact was left alone and the run goes on.
pub open spec fn is_failed(
    environment: Environment,
    before: RunModel,
    after: RunModel,
    count: int,
    action: Action,
    kind: FailureKind,
    message: Seq<char>,
) -> bool {
    &&& is_advanced(before, after, count, action)
    &&& after.outcomes == before.outcomes.push(Outcome::Failed)
    &&& after.errors == before.errors.push(
        ErrorModel { environment: environment.name@, kind, message },
    )
    &&& after.lock == before.lock
}

/// The current environment's pass ended by taking over the result that the
/// coordinator holds for it.
pub open spec fn is_adopted(
    environment: Environment,
    before: RunModel,
    after: RunModel,
    count: int,
    action: Action,
    result: ReconciliationResult,
) -> bool {
    match result {
        ReconciliationResult::Skipped => {
            &&& is_advanced(before, after, count, action)
            &&& after.outcomes == before.outcomes.push(Outcome::Skipped)
            &&& after.errors == before.errors
            &&& after.lock == before.lock
        },
        ReconciliationResult::Updated { records, python_status } => is_updated(
            environment,
            before,
            after,
            count,
            action,
            records@,
        ),
        ReconciliationResult::Failed { error } => is_failed(
            environment,
            before,
            after,
            count,
            action,
            error.kind,
            error.message@,
        ),
    }
}

/// Whether only the stage differs between two states of a run.
pub open spec fn is_restaged(before: RunModel, after: RunModel, stage: Stage) -> bool {
    after == (RunModel { stage, ..before })
}

/// The driver's rule: what an event does to a run that stands at `before`,
/// with the coordinator's cells at `cells_before`, where `satisfied` is the
/// answer to whether a scan satisfies what the current environment desires.
pub open spec fn is_step_given(
    environments: Seq<Environment>,
    before: RunModel,
    cells_before: Map<Seq<char>, Cell<ReconciliationResult>>,
    event: Event,
    satisfied: bool,
    after: RunModel,
    cells_after: Map<Seq<char>, Cell<ReconciliationResult>>,
    action: Action,
) -> bool {
    let count = environments.len() as int;
    let environment = environments[before.current];
    let name = environment.name@;
    let at = before.current as usize;
    match (before.stage, event) {
        (Stage::Reading, Event::Installed(outcome)) => match plan_given(outcome, satisfied) {
            Plan::Fail => cells_after == cells_before && is_failed(
                environment,
                before,
                after,
                count,
                action,
                FailureKind::ReadInstalledFailed,
                outcome->Failed_0@,
            ),
            Plan::Skip => cells_after == cells_before && is_skipped(
                environment,
                before,
                after,
                count,
                action,
                outcome->Present_0@,
            ),
            Plan::Update => cells_after == begin_cells(cells_before, name) && (
            if !cells_before.contains_key(name) {
                is_restaged(before, after, Stage::Solving) && action == (Action::Solve {
                    environment: at,
                })
            } else {
                match cells_before[name] {
                    Cell::InFlight => is_restaged(before, after, Stage::Waiting) && action == (
                    Action::Await { environment: at }),
                    Cell::Resolved(result) => is_adopted(
                        environment,
                        before,
                        after,
                        count,
                        action,
                        result,
                    ),
                }
            }),
        },
        (Stage::Waiting, Event::Resolved) => cells_after == cells_before && (if is_resolved(
            cells_before,
            name,
        ) {
            is_adopted(
                environment,
                before,
                after,
                count,
                action,
                cells_before[name]->Resolved_0,
            )
        } else {
            after == before && action == (Action::Await { environment: at })
        }),
        (Stage::Solving, Event::Solved(Ok(records))) => cells_after == cells_before && is_restaged(
            before,
            after,
            Stage::Installing,
        ) && action == (Action::Install { environment: at, records }),
        (Stage::Solving, Event::Solved(Err(message))) => cells_after == finish_cells(
            cells_before,
            name,
            ReconciliationResult::Failed {
                error: Failure { kind: FailureKind::SolveFailed, message },
            },
        ) && is_failed(
            environment,
            before,
            after,
            count,
            action,
            FailureKind::SolveFailed,
            message@,
        ),
        (Stage::Installing, Event::InstallFinished(Ok((records, python_status)))) => cells_after
            == finish_cells(
            cells_before,
            name,
            ReconciliationResult::Updated { records, python_status },
        ) && is_updated(environment, before, after, count, action, records@),
        (Stage::Installing, Event::InstallFinished(Err(message))) => cells_after == finish_cells(
            cells_before,
            name,
            ReconciliationResult::Failed {
                error: Failure { kind: FailureKind::InstallFailed, message },
            },
        ) && is_failed(
            environment,
            before,
            after,
            count,
            action,
            FailureKind::InstallFailed,
            message@,
        ),
        _ => cells_after == cells_before && after == before && action == Action::OutOfTurn,
    }
}

/// Whether `satisfied` may be the answer that the step of a run standing at
/// `stage` goes by: where a scan is reported while one is waited for, it is
/// an answer that the satisfaction check may give.
pub open spec fn is_step_verdict(
    desired: Seq<Dependency>,
    stage: Stage,
    event: Event,
    satisfied: bool,
) -> bool {
    stage == Stage::Reading && event is Installed ==> is_scan_verdict(
        desired,
        event->Installed_0,
        satisfied,
    )
}

/// The driver's rule: what an event does to a run that stands at `before`,
/// with the coordinator's cells at `cells_before`. The rule goes by an
/// answer that the satisfaction check may give; where the first spec of
/// every dependency of the current environment is portable, there is one.
pub open spec fn is_step(
    environments: Seq<Environment>,
    before: RunModel,
    cells_before: Map<Seq<char>, Cell<ReconciliationResult>>,
    event: Event,
    after: RunModel,
    cells_after: Map<Seq<char>, Cell<ReconciliationResult>>,
    action: Action,
) -> bool {
    exists|satisfied: bool| #[trigger]
        is_step_given(
            environments,
            before,
            cells_before,
            event,
            satisfied,
            after,
            cells_after,
            action,
        ) && is_step_verdict(
            environments[before.current].dependencies@,
            before.stage,
            event,
            satisfied,
        )
}

/// A reconciliation run over a list of environments.
pub struct ReconcileRun {
    environments: Vec<Environment>,
    current: usize,
    stage: Stage,
    lock: LockArtifact,
    errors: Vec<EnvironmentError>,
    outcomes: Vec<Outcome>,
}

impl View for ReconcileRun {
    type V = RunModel;

    closed spec fn view(&self) -> RunModel {
        RunModel {
            environments: self.environments@,
            current: self.current as int,
            stage: self.stage,
            lock: self.lock.entries(),
            errors: error_models(self.errors@),
            outcomes: self.outcomes@,
        }
    }
}

impl ReconcileRun {
    /// The environments of the run, in the order of their passes.
    pub open spec fn environments(&self) -> Seq<Environment> {
        self@.environments
    }

    /// The run stands at an environment of its list, or is done.
    pub closed spec fn wf(&self) -> bool {
        &&& self.lock.wf()
        &&& self.current <= self.environments@.len()
        &&& self.stage == Stage::Done <==> self.current == self.environments@.len()
        &&& self.outcomes@.len() == self.current
    }

    /// Starts a run over `environments`, and says what to do first.
    pub fn new(environments: Vec<Environment>) -> (r: (ReconcileRun, Action))
        ensures
            r.0.wf(),
            r.0.environments() == environments@,
            r.0@.current == 0,
            r.0@.lock == Map::<Seq<char>, EntryModel>::empty(),
            r.0@.errors == Seq::<ErrorModel>::empty(),
            r.0@.outcomes == Seq::<Outcome>::empty(),
            environments@.len() > 0 ==> r.0@.stage == Stage::Reading && r.1 == (
            Action::ReadInstalled { environment: 0 }),
            environments@.len() == 0 ==> r.0@.stage == Stage::Done && r.1 == Action::Finished,
    {
        let empty = environments.len() == 0;
        let run = ReconcileRun {
            environments,
            current: 0,
            stage: if empty {
                Stage::Done
            } else {
                Stage::Reading
            },
            lock: LockArtifact::new(),
            errors: Vec::new(),
            outcomes: Vec::new(),
        };
        assert(error_models(run.errors@) =~= Seq::<ErrorModel>::empty());
        if empty {
            (run, Action::Finished)
        } else {
            (run, Action::ReadInstalled { environment: 0 })
        }
    }

    /// The environment at `index`.
    pub fn environment(&self, index: usize) -> (r: Option<&Environment>)
        ensures
            r is Some <==> index < self.environments().len(),
            r matches Some(e) ==> *e == self.environments()[index as int],
    {
        if index < self.environments.len() {
            Some(&self.environments[index])
        } else {
            None
        }
    }

    /// How the passes that have ended went, in the order of the
    /// environments.
    pub fn outcomes(&self) -> (r: &Vec<Outcome>)
        ensures
            r@ == self@.outcomes,
    {
        &self.outcomes
    }

    /// Ends the run: the lock artifact if no environment failed, and the
    /// collected failures otherwise.
    pub fn finish(self) -> (r: Result<LockArtifact, Vec<EnvironmentError>>)
        requires
            self.wf(),
        ensures
            r is Ok <==> self@.errors.len() == 0,
            r matches Ok(lock) ==> lock.wf() && lock.entries() == self@.lock,
            r matches Err(errors) ==> error_models(errors@) == self@.errors,
    {
        if self.errors.len() == 0 {
            Ok(self.lock)
        } else {
            Err(self.errors)
        }
    }

    /// Moves on to the next environment after `outcome` was noted for the
    /// current one.
    fn advance(&mut self, outcome: Outcome) -> (action: Action)
        requires
            old(self).wf(),
            old(self).stage != Stage::Done,
        ensures
            final(self).wf(),
            final(self).environments() == old(self).environments(),
            is_advanced(old(self)@, final(self)@, old(self).environments().len() as int, action),
            final(self)@.outcomes == old(self)@.outcomes.push(outcome),
            final(self)@.errors == old(self)@.errors,
            final(self)@.lock == old(self)@.lock,
    {
        let count = self.environments.len();
        assert(self.current < count);
        self.outcomes.push(outcome);
        self.current = self.current + 1;
        if self.current < count {
            self.stage = Stage::Reading;
            Action::ReadInstalled { environment: self.current }
        } else {
            self.stage = Stage::Done;
            Action::Finished
        }
    }

    /// Collects a failure of the current environment and moves on.
    fn fail(&mut self, kind: FailureKind, message: String) -> (action: Action)
        requires
            old(self).wf(),
            old(self).stage != Stage::Done,
        ensures
            final(self).wf(),
            final(self).environments() == old(self).environments(),
            is_failed(
                old(self).environments()[old(self)@.current],
                old(self)@,
                final(self)@,
                old(self).environments().len() as int,
                action,
                kind,
                message@,
            ),
    {
        let environment = self.environments[self.current].name.as_str().to_owned();
        let ghost before = self.errors@;
        self.errors.push(EnvironmentError { environment, failure: Failure { kind, message } });
        assert(error_models(self.errors@) =~= error_models(before).push(
            ErrorModel {
                environment: self.environments@[self.current as int].name@,
                kind,
                message: message@,
            },
        ));
        self.advance(Outcome::Failed)
    }

    /// Publishes what is installed in the current environment and moves on.
    fn publish(&mut self, records: &Vec<InstalledPackageRecord>, outcome: Outcome) -> (action: Action)
        requires
            old(self).wf(),
            old(self).stage != Stage::Done,
        ensures
            final(self).wf(),
            final(self).environments() == old(self).environments(),
            is_advanced(old(self)@, final(self)@, old(self).environments().len() as int, action),
            final(self)@.outcomes == old(self)@.outcomes.push(outcome),
            final(self)@.errors == old(self)@.errors,
            is_published(
                old(self)@.lock,
                final(self)@.lock,
                old(self).environments()[old(self)@.current].name@,
                old(self).environments()[old(self)@.current].platform@,
                texts(old(self).environments()[old(self)@.current].channels@),
                records@,
            ),
    {
        let environment = &self.environments[self.current];
        self.lock.publish(
            environment.name.as_str(),
            environment.platform.as_str(),
            &environment.channels,
            records,
        );
        self.advance(outcome)
    }

    /// Takes over a result that the coordinator holds for the current
    /// environment.
    fn adopt(&mut self, result: &ReconciliationResult) -> (action: Action)
        requires
            old(self).wf(),
            old(self).stage != Stage::Done,
        ensures
            final(self).wf(),
            final(self).environments() == old(self).environments(),
            is_adopted(
                old(self).environments()[old(self)@.current],
                old(self)@,
                final(self)@,
                old(self).environments().len() as int,
                action,
                *result,
            ),
    {
        match result {
            ReconciliationResult::Skipped => self.advance(Outcome::Skipped),
            ReconciliationResult::Updated { records, python_status } => self.publish(
                records,
                Outcome::Updated,
            ),
            ReconciliationResult::Failed { error } => self.fail(error.kind, error.message.clone()),
        }
    }

    /// Takes the report of what the driver last asked for, and says what to
    /// do next. Updates are started through `coordinator`, which is asked
    /// before every solve and told every result, so that an environment that
    /// another caller updates, or has updated, is not updated again.
    pub fn step(&mut self, coordinator: &mut Coordinator<ReconciliationResult>, event: Event) -> (action:
        Action)
        requires
            old(self).wf(),
            old(coordinator).wf(),
        ensures
            final(self).wf(),
            final(coordinator).wf(),
            final(self).environments() == old(self).environments(),
            is_step(
                old(self).environments(),
                old(self)@,
                old(coordinator).cells(),
                event,
                final(self)@,
                final(coordinator).cells(),
                action,
            ),
    {
        let ghost reported = event;
        let ghost mut satisfied: bool = true;
        let action = match self.stage {
            Stage::Reading => match event {
                Event::Installed(outcome) => {
                    let planned = plan(&self.environments[self.current].dependencies, &outcome);
                    proof {
                        satisfied = choose|answer: bool|
                            planned == #[trigger] plan_given(outcome, answer) && is_scan_verdict(
                                self.environments@[self.current as int].dependencies@,
                                outcome,
                                answer,
                            );
                    }
                    match planned {
                        Plan::Fail => match outcome {
                            ReadOutcome::Failed(message) => self.fail(
                                FailureKind::ReadInstalledFailed,
                                message,
                            ),
                            _ => Action::OutOfTurn,
                        },
                        Plan::Skip => match outcome {
                            ReadOutcome::Present(records) => self.publish(&records, Outcome::Skipped),
                            _ => Action::OutOfTurn,
                        },
                        Plan::Update => {
                            let ticket = coordinator.begin(
                                self.environments[self.current].name.as_str(),
                            );
                            match ticket {
                                Ticket::Run => {
                                    self.stage = Stage::Solving;
                                    Action::Solve { environment: self.current }
                                },
                                Ticket::Wait => {
                                    self.stage = Stage::Waiting;
                                    Action::Await { environment: self.current }
                                },
                                Ticket::Ready(result) => self.adopt(result),
                            }
                        },
                    }
                },
                _ => Action::OutOfTurn,
            },
            Stage::Waiting => match event {
                Event::Resolved => {
                    match coordinator.get(self.environments[self.current].name.as_str()) {
                        Some(result) => self.adopt(result),
                        None => Action::Await { environment: self.current },
                    }
                },
                _ => Action::OutOfTurn,
            },
            Stage::Solving => match event {
                Event::Solved(Ok(records)) => {
                    self.stage = Stage::Installing;
                    Action::Install { environment: self.current, records }
                },
                Event::Solved(Err(message)) => {
                    let noted = message.clone();
                    coordinator.finish(
                        self.environments[self.current].name.as_str(),
                        ReconciliationResult::Failed {
                            error: Failure { kind: FailureKind::SolveFailed, message },
                        },
                    );
                    self.fail(FailureKind::SolveFailed, noted)
                },
                _ => Action::OutOfTurn,
            },
            Stage::Installing => match event {
                Event::InstallFinished(Ok((records, python_status))) => {
                    let action = self.publish(&records, Outcome::Updated);
                    coordinator.finish(
                        self.environments[self.current - 1].name.as_str(),
                        ReconciliationResult::Updated { records, python_status },
                    );
                    action
                },
                Event::InstallFinished(Err(message)) => {
                    let noted = message.clone();
                    coordinator.finish(
                        self.environments[self.current].name.as_str(),
                        ReconciliationResult::Failed {
                            error: Failure { kind: FailureKind::InstallFailed, message },
                        },
                    );
                    self.fail(FailureKind::InstallFailed, noted)
                },
                _ => Action::OutOfTurn,
            },
            Stage::Done => Action::OutOfTurn,
        };
        proof {
            assert(is_step_given(
                old(self).environments(),
                old(self)@,
                old(coordinator).cells(),
                reported,
                satisfied,
                self@,
                coordinator.cells(),
                action,
            ));
        }
        action
    }
}

/// Whether the run may stand at `state`: at the scan of an environment of
/// the list, or at the end.
pub open spec fn is_between_passes(environments: Seq<Environment>, state: RunModel) -> bool {
    ||| state.stage == Stage::Reading && 0 <= state.current < environments.len()
    ||| state.stage == Stage::Done && state.current == environments.len()
}

/// Whether the `k`-th event takes the driver from the `k`-th state to the
/// next, with the `k`-th action.
pub open spec fn is_step_at(
    environments: Seq<Environment>,
    states: Seq<RunModel>,
    cells: Seq<Map<Seq<char>, Cell<ReconciliationResult>>>,
    events: Seq<Event>,
    actions: Seq<Action>,
    k: int,
) -> bool {
    is_step(
        environments,
        states[k],
        cells[k],
        events[k],
        states[k + 1],
        cells[k + 1],
        actions[k],
    )
}

/// Whether `states`, `cells` and `actions` are what the driver goes through
/// when it is told `events` one after the other.
pub open spec fn is_trace(
    environments: Seq<Environment>,
    states: Seq<RunModel>,
    cells: Seq<Map<Seq<char>, Cell<ReconciliationResult>>>,
    events: Seq<Event>,
    actions: Seq<Action>,
) -> bool {
    &&& states.len() == events.len() + 1
    &&& cells.len() == events.len() + 1
    &&& actions.len() == events.len()
    &&& forall|k: int|
        0 <= k < events.len() ==> #[trigger] is_step_at(
            environments,
            states,
            cells,
            events,
            actions,
            k,
        )
}

/// Whether `event` reports a scan that found records which satisfy the
/// desired dependencies of `environment`.
pub open spec fn is_satisfying_scan(environment: Environment, event: Event) -> bool {
    event matches Event::Installed(ReadOutcome::Present(records)) && is_surely_satisfied(
        environment.dependencies@,
        records@,
    )
}

/// Whether `event` reports a scan that calls for an update: there is no
/// environment at the root, or what was found there cannot satisfy the
/// desired dependencies of `environment`.
pub open spec fn is_wanting_scan(environment: Environment, event: Event) -> bool {
    match event {
        Event::Installed(ReadOutcome::Absent) => true,
        Event::Installed(ReadOutcome::Present(records)) => !is_possibly_satisfied(
            environment.dependencies@,
            records@,
        ),
        _ => false,
    }
}

/// Whether `action` asks for outside work that changes an environment, or
/// waits for such work.
pub open spec fn is_update_effort(action: Action) -> bool {
    action is Solve || action is Install || action is Await
}

/// Where the first spec of every dependency of the current environment is
/// portable, a step goes by the one answer there is: whether what the scan
/// found satisfies what the environment desires.
pub proof fn lemma_portable_step_is_exact(
    environments: Seq<Environment>,
    before: RunModel,
    cells_before: Map<Seq<char>, Cell<ReconciliationResult>>,
    event: Event,
    after: RunModel,
    cells_after: Map<Seq<char>, Cell<ReconciliationResult>>,
    action: Action,
)
    requires
        all_portable(environments[before.current].dependencies@),
        is_step(environments, before, cells_before, event, after, cells_after, action),
    ensures
        is_step_given(
            environments,
            before,
            cells_before,
            event,
            event matches Event::Installed(ReadOutcome::Present(records)) && is_satisfied(
                environments[before.current].dependencies@,
                records@,
            ),
            after,
            cells_after,
            action,
        ),
{
    let desired = environments[before.current].dependencies@;
    let answer = choose|satisfied: bool| #[trigger]
        is_step_given(
            environments,
            before,
            cells_before,
            event,
            satisfied,
            after,
            cells_after,
            action,
        ) && is_step_verdict(desired, before.stage, event, satisfied);
    if before.stage == Stage::Reading {
        if let Event::Installed(ReadOutcome::Present(records)) = event {
            lemma_portable_is_exact(desired, records@, answer);
        }
    }
}

/// An environment whose scan satisfies what it desires is passed over: the
/// coordinator is not asked, nothing is solved or installed, and the
/// environment is noted as skipped with what was found published.
pub proof fn lemma_satisfied_is_skipped(
    environments: Seq<Environment>,
    before: RunModel,
    cells_before: Map<Seq<char>, Cell<ReconciliationResult>>,
    event: Event,
    after: RunModel,
    cells_after: Map<Seq<char>, Cell<ReconciliationResult>>,
    action: Action,
)
    requires
        before.stage == Stage::Reading,
        is_satisfying_scan(environments[before.current], event),
        is_step(environments, before, cells_before, event, after, cells_after, action),
    ensures
        cells_after == cells_before,
        !is_update_effort(action),
        is_skipped(
            environments[before.current],
            before,
            after,
            environments.len() as int,
            action,
            event->Installed_0->Present_0@,
        ),
{
}

/// An environment whose scan calls for an update, and that no one has
/// asked the coordinator about, goes on to be solved, and once it is solved,
/// to be installed.
pub proof fn lemma_unsatisfied_is_solved(
    environments: Seq<Environment>,
    before: RunModel,
    cells_before: Map<Seq<char>, Cell<ReconciliationResult>>,
    event: Event,
    after: RunModel,
    cells_after: Map<Seq<char>, Cell<ReconciliationResult>>,
    action: Action,
)
    requires
        before.stage == Stage::Reading,
        is_wanting_scan(environments[before.current], event),
        !cells_before.contains_key(environments[before.current].name@),
        is_step(environments, before, cells_before, event, after, cells_after, action),
    ensures
        action == (Action::Solve { environment: before.current as usize }),
        after.stage == Stage::Solving,
        cells_after == cells_before.insert(environments[before.current].name@, Cell::InFlight),
        forall|records: Vec<ResolvedRecord>, next: RunModel, cells_next: Map<Seq<char>, Cell<ReconciliationResult>>, then: Action|
            is_step(
                environments,
                after,
                cells_after,
                Event::Solved(Ok(records)),
                next,
                cells_next,
                then,
            ) ==> then == (Action::Install { environment: before.current as usize, records }),
{
}

/// A failure ends the pass of its environment and nothing else: it is
/// collected together with the environment's name, the lock artifact is left
/// alone, and the driver turns to the next environment, or finishes if there
/// is none.
pub proof fn lemma_failure_does_not_stop_the_run(
    environments: Seq<Environment>,
    before: RunModel,
    cells_before: Map<Seq<char>, Cell<ReconciliationResult>>,
    event: Event,
    after: RunModel,
    cells_after: Map<Seq<char>, Cell<ReconciliationResult>>,
    action: Action,
)
    requires
        0 <= before.current < environments.len(),
        is_step(environments, before, cells_before, event, after, cells_after, action),
        match (before.stage, event) {
            (Stage::Reading, Event::Installed(ReadOutcome::Failed(_))) => true,
            (Stage::Solving, Event::Solved(Err(_))) => true,
            (Stage::Installing, Event::InstallFinished(Err(_))) => true,
            _ => false,
        },
    ensures
        after.current == before.current + 1,
        after.errors.len() == before.errors.len() + 1,
        after.errors.last().environment == environments[before.current].name@,
        after.errors.last().kind == (match before.stage {
            Stage::Reading => FailureKind::ReadInstalledFailed,
            Stage::Solving => FailureKind::SolveFailed,
            _ => FailureKind::InstallFailed,
        }),
        after.lock == before.lock,
        after.current < environments.len() ==> action == (Action::ReadInstalled {
            environment: after.current as usize,
        }),
        after.current == environments.len() ==> action == Action::Finished,
{
}

/// One step of a run that stands between passes, where the event, if a scan
/// is due, is a scan that satisfies: no update effort is made, and the run
/// stands between passes again.
pub proof fn lemma_idle_step(
    environments: Seq<Environment>,
    before: RunModel,
    cells_before: Map<Seq<char>, Cell<ReconciliationResult>>,
    event: Event,
    after: RunModel,
    cells_after: Map<Seq<char>, Cell<ReconciliationResult>>,
    action: Action,
)
    requires
        is_between_passes(environments, before),
        before.stage == Stage::Reading ==> is_satisfying_scan(
            environments[before.current],
            event,
        ),
        is_step(environments, before, cells_before, event, after, cells_after, action),
    ensures
        is_between_passes(environments, after),
        cells_after == cells_before,
        after.errors == before.errors,
        !is_update_effort(action),
        after.outcomes == before.outcomes || after.outcomes == before.outcomes.push(
            Outcome::Skipped,
        ),
        after.outcomes == before.outcomes ==> after.current == before.current,
        after.outcomes != before.outcomes ==> after.current == before.current + 1,
{
    if before.stage == Stage::Reading {
        lemma_satisfied_is_skipped(
            environments,
            before,
            cells_before,
            event,
            after,
            cells_after,
            action,
        );
        assert(after.outcomes.len() == before.outcomes.len() + 1);
    } else {
        assert(before.stage == Stage::Done);
        assert(after == before);
        assert(action == Action::OutOfTurn);
    }
}

/// A run in which every scan satisfies what its environment desires makes no
/// update effort at all: whatever is reported in between, no action asks to
/// solve, to install or to wait, the coordinator stays as it was, no failure
/// is collected, and every pass that ended is noted as skipped. So a second
/// run over what a first, successful run left behind solves and installs
/// nothing.
pub proof fn lemma_satisfied_run_is_idle(
    environments: Seq<Environment>,
    states: Seq<RunModel>,
    cells: Seq<Map<Seq<char>, Cell<ReconciliationResult>>>,
    events: Seq<Event>,
    actions: Seq<Action>,
    upto: int,
)
    requires
        is_trace(environments, states, cells, events, actions),
        is_between_passes(environments, states[0]),
        forall|k: int|
            0 <= k < events.len() && states[k].stage == Stage::Reading ==> is_satisfying_scan(
                environments[states[k].current],
                #[trigger] events[k],
            ),
        0 <= upto <= events.len(),
    ensures
        is_between_passes(environments, states[upto]),
        cells[upto] == cells[0],
        states[upto].errors == states[0].errors,
        states[upto].current >= states[0].current,
        states[upto].outcomes == states[0].outcomes + Seq::new(
            (states[upto].current - states[0].current) as nat,
            |i: int| Outcome::Skipped,
        ),
        forall|k: int| 0 <= k < upto ==> !is_update_effort(#[trigger] actions[k]),
    decreases upto,
{
    if upto > 0 {
        lemma_satisfied_run_is_idle(environments, states, cells, events, actions, upto - 1);
        let k = upto - 1;
        assert(is_step_at(environments, states, cells, events, actions, k));
        lemma_idle_step(
            environments,
            states[k],
            cells[k],
            events[k],
            states[k + 1],
            cells[k + 1],
            actions[k],
        );
        assert(states[upto].outcomes =~= states[0].outcomes + Seq::new(
            (states[upto].current - states[0].current) as nat,
            |i: int| Outcome::Skipped,
        ));
    } else {
        assert(states[0].outcomes =~= states[0].outcomes + Seq::new(
            0nat,
            |i: int| Outcome::Skipped,
        ));
    }
}

} // verus!
