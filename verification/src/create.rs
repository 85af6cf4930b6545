//! The decisions taken while an environment is created: where it goes,
//! what happens to a directory that is in the way, which channels are
//! searched, and whether the installation goes ahead.

use crate::lock::clone_texts;
use crate::ordering::texts;
use vstd::prelude::*;

verus! {

/// Where the location of the new environment is taken from.
#[derive(Debug, Clone, Copy, PartialEq, Eq, Structural)]
pub enum PrefixSource {
    /// The prefix given on the command line.
    ArgumentPrefix,
    /// The name given on the command line, below the registry's root.
    ArgumentName,
    /// The prefix that the input file holds.
    InputPrefix,
    /// The name that the input file holds, below the registry's root.
    InputName,
}

/// What of the input file is passed over in favour of something else.
#[derive(Debug, Clone, Copy, PartialEq, Eq, Structural)]
pub enum PrefixWarning {
    /// `--prefix` is specified, but the input file also contains a prefix.
    PrefixOverridesInputPrefix,
    /// `--prefix` is specified, but the input file also contains a name.
    PrefixOverridesInputName,
    /// `--name` is specified, but the input file also contains a prefix.
    NameOverridesInputPrefix,
    /// `--name` is specified, but the input file also contains a name.
    NameOverridesInputName,
    /// The input file contains both a name and a prefix.
    InputPrefixOverridesInputName,
}

/// The choice of a location, with the warning that goes with it.
#[derive(Debug, Clone, Copy, PartialEq, Eq, Structural)]
pub struct PrefixChoice {
    pub source: PrefixSource,
    pub warning: Option<PrefixWarning>,
}

/// Neither the command line nor the input file says where the environment
/// goes.
#[derive(Debug, Clone, Copy, PartialEq, Eq, Structural)]
pub struct MissingTarget;

/// The choice of a location: the command line's prefix before its name,
/// both before the input file's prefix, that before the input file's name.
/// What the winner passes over in the input file is warned about, the
/// file's prefix rather than its name.
pub open spec fn prefix_choice(
    argument_prefix: bool,
    argument_name: bool,
    input_prefix: bool,
    input_name: bool,
) -> Result<PrefixChoice, MissingTarget> {
    if argument_prefix {
        Ok(
            PrefixChoice {
                source: PrefixSource::ArgumentPrefix,
                warning: if input_prefix {
                    Some(PrefixWarning::PrefixOverridesInputPrefix)
                } else if input_name {
                    Some(PrefixWarning::PrefixOverridesInputName)
                } else {
                    None
                },
            },
        )
    } else if argument_name {
        Ok(
            PrefixChoice {
                source: PrefixSource::ArgumentName,
                warning: if input_prefix {
                    Some(PrefixWarning::NameOverridesInputPrefix)
                } else if input_name {
                    Some(PrefixWarning::NameOverridesInputName)
                } else {
                    None
                },
            },
        )
    } else if input_prefix {
        Ok(
            PrefixChoice {
                source: PrefixSource::InputPrefix,
                warning: if input_name {
                    Some(PrefixWarning::InputPrefixOverridesInputName)
                } else {
                    None
                },
            },
        )
    } else if input_name {
        Ok(PrefixChoice { source: PrefixSource::InputName, warning: None })
    } else {
        Err(MissingTarget)
    }
}

/// Chooses where the new environment goes, given which of the four places
/// name a location.
pub fn choose_prefix(
    argument_prefix: bool,
    argument_name: bool,
    input_prefix: bool,
    input_name: bool,
) -> (r: Result<PrefixChoice, MissingTarget>)
    ensures
        r == prefix_choice(argument_prefix, argument_name, input_prefix, input_name),
{
    let overridden = if input_prefix {
        1u8
    } else if input_name {
        2u8
    } else {
        0u8
    };
    if argument_prefix {
        let warning = if overridden == 1 {
            Some(PrefixWarning::PrefixOverridesInputPrefix)
        } else if overridden == 2 {
            Some(PrefixWarning::PrefixOverridesInputName)
        } else {
            None
        };
        Ok(PrefixChoice { source: PrefixSource::ArgumentPrefix, warning })
    } else if argument_name {
        let warning = if overridden == 1 {
            Some(PrefixWarning::NameOverridesInputPrefix)
        } else if overridden == 2 {
            Some(PrefixWarning::NameOverridesInputName)
        } else {
            None
        };
        Ok(PrefixChoice { source: PrefixSource::ArgumentName, warning })
    } else if input_prefix {
        let warning = if input_name {
            Some(PrefixWarning::InputPrefixOverridesInputName)
        } else {
            None
        };
        Ok(PrefixChoice { source: PrefixSource::InputPrefix, warning })
    } else if input_name {
        Ok(PrefixChoice { source: PrefixSource::InputName, warning: None })
    } else {
        Err(MissingTarget)
    }
}

/// What to do about the directory at the chosen location.
#[derive(Debug, Clone, Copy, PartialEq, Eq, Structural)]
pub enum ExistingPrefix {
    /// Nothing is in the way.
    Proceed,
    /// Something is in the way and nothing may be touched: give up.
    RefuseDryRun,
    /// Remove what is in the way.
    Remove,
    /// Ask whether to remove what is in the way, and abort unless the answer
    /// is yes.
    Ask,
}

/// What to do about the directory at the chosen location: nothing where
/// there is none; on a dry run it is refused; it is removed where the user
/// said yes to everything, and asked about otherwise.
pub open spec fn existing_prefix_of(exists: bool, dry_run: bool, yes: bool) -> ExistingPrefix {
    if !exists {
        ExistingPrefix::Proceed
    } else if dry_run {
        ExistingPrefix::RefuseDryRun
    } else if yes {
        ExistingPrefix::Remove
    } else {
        ExistingPrefix::Ask
    }
}

/// Decides what to do about the directory at the chosen location.
pub fn existing_prefix(exists: bool, dry_run: bool, yes: bool) -> (r: ExistingPrefix)
    ensures
        r == existing_prefix_of(exists, dry_run, yes),
{
    if !exists {
        ExistingPrefix::Proceed
    } else if dry_run {
        ExistingPrefix::RefuseDryRun
    } else if yes {
        ExistingPrefix::Remove
    } else {
        ExistingPrefix::Ask
    }
}

/// What to do once the environment is solved.
#[derive(Debug, Clone, Copy, PartialEq, Eq, Structural)]
pub enum AfterSolve {
    /// Only show what would be installed.
    Stop,
    /// Install.
    Install,
    /// Ask whether to install, and abort unless the answer is yes.
    Ask,
}

/// What to do once the environment is solved: a dry run stops; the
/// installation goes ahead where the user said yes to everything, and is
/// asked about otherwise.
pub open spec fn after_solve_of(dry_run: bool, yes: bool) -> AfterSolve {
    if dry_run {
        AfterSolve::Stop
    } else if yes {
        AfterSolve::Install
    } else {
        AfterSolve::Ask
    }
}

/// Decides what to do once the environment is solved.
pub fn after_solve(dry_run: bool, yes: bool) -> (r: AfterSolve)
    ensures
        r == after_solve_of(dry_run, yes),
{
    if dry_run {
        AfterSolve::Stop
    } else if yes {
        AfterSolve::Install
    } else {
        AfterSolve::Ask
    }
}

/// The channels to search, and whether channels of the input are passed
/// over.
#[derive(Debug, Clone, PartialEq, Eq)]
pub struct ChannelSelection {
    pub channels: Vec<String>,
    pub input_ignored: bool,
}

/// The channels to search: those of the command line, or the defaults
/// where it names none, followed by those of the input unless the command
/// line overrides them.
pub open spec fn selected_channels(
    arguments: Seq<Seq<char>>,
    defaults: Seq<Seq<char>>,
    input: Seq<Seq<char>>,
    override_channels: bool,
) -> Seq<Seq<char>> {
    let first = if arguments.len() == 0 {
        defaults
    } else {
        arguments
    };
    if override_channels {
        first
    } else {
        first + input
    }
}

/// Selects the channels to search.
pub fn select_channels(
    arguments: &Vec<String>,
    defaults: &Vec<String>,
    input: &Vec<String>,
    override_channels: bool,
) -> (r: ChannelSelection)
    ensures
        texts(r.channels@) == selected_channels(
            texts(arguments@),
            texts(defaults@),
            texts(input@),
            override_channels,
        ),
        r.input_ignored == (override_channels && input@.len() > 0),
{
    let mut channels = if arguments.len() == 0 {
        clone_texts(defaults)
    } else {
        clone_texts(arguments)
    };
    if override_channels {
        ChannelSelection { channels, input_ignored: input.len() > 0 }
    } else {
        let ghost first = texts(channels@);
        let mut more = clone_texts(input);
        let ghost second = texts(more@);
        channels.append(&mut more);
        assert(texts(channels@) =~= first + second);
        ChannelSelection { channels, input_ignored: false }
    }
}

/// What the creation of an environment waits for.
#[derive(Debug, Clone, Copy, PartialEq, Eq, Structural)]
pub enum CreateStage {
    /// Whether there is a directory at the chosen location.
    CheckingPrefix,
    /// The answer to whether that directory may be removed.
    AskingToRemove,
    /// The removal of that directory.
    RemovingPrefix,
    /// The packages that channels offer, solved and shown.
    Solving,
    /// The answer to whether the installation may go ahead.
    AskingToInstall,
    /// The installation.
    Installing,
    /// Nothing: the creation has ended.
    Finished,
}

/// What the caller reports while an environment is created.
#[derive(Debug, Clone, Copy, PartialEq, Eq, Structural)]
pub enum CreateEvent {
    /// Whether there is a directory at the chosen location.
    PrefixChecked(bool),
    /// The user's answer to the question that was asked.
    Answered(bool),
    /// The directory at the chosen location was removed.
    PrefixRemoved,
    /// The environment was solved and the packages to install were shown.
    Solved,
    /// The packages were installed.
    Installed,
}

/// How the creation of an environment ended.
#[derive(Debug, Clone, Copy, PartialEq, Eq, Structural)]
pub enum CreateEnd {
    /// The environment was installed.
    Installed,
    /// What would be installed was shown, and nothing was touched.
    Shown,
    /// The user said no.
    Aborted,
    /// A directory is in the way, and on a dry run nothing may be touched.
    Refused,
}

/// What is asked of the caller while an environment is created.
#[derive(Debug, Clone, Copy, PartialEq, Eq, Structural)]
pub enum CreateAction {
    /// Look whether there is a directory at the chosen location.
    CheckPrefix,
    /// Ask whether the directory at the chosen location may be removed.
    AskToRemove,
    /// Remove the directory at the chosen location.
    RemovePrefix,
    /// Fetch what the channels offer, solve, and show what would be
    /// installed.
    Solve,
    /// Ask whether the installation may go ahead.
    AskToInstall,
    /// Install.
    Install,
    /// Nothing more.
    Finish(CreateEnd),
    /// The event was not the one waited for and was ignored.
    OutOfTurn,
}

/// The order in which an environment is created: the chosen location is
/// cleared, or the creation refused, before anything is fetched; the
/// environment is solved and shown before anything is installed; and the
/// questions are asked in between.
pub open spec fn create_step(stage: CreateStage, event: CreateEvent, dry_run: bool, yes: bool) -> (
    CreateStage,
    CreateAction,
) {
    match (stage, event) {
        (CreateStage::CheckingPrefix, CreateEvent::PrefixChecked(exists)) => match existing_prefix_of(
            exists,
            dry_run,
            yes,
        ) {
            ExistingPrefix::Proceed => (CreateStage::Solving, CreateAction::Solve),
            ExistingPrefix::RefuseDryRun => (
                CreateStage::Finished,
                CreateAction::Finish(CreateEnd::Refused),
            ),
            ExistingPrefix::Remove => (CreateStage::RemovingPrefix, CreateAction::RemovePrefix),
            ExistingPrefix::Ask => (CreateStage::AskingToRemove, CreateAction::AskToRemove),
        },
        (CreateStage::AskingToRemove, CreateEvent::Answered(allowed)) => if allowed {
            (CreateStage::RemovingPrefix, CreateAction::RemovePrefix)
        } else {
            (CreateStage::Finished, CreateAction::Finish(CreateEnd::Aborted))
        },
        (CreateStage::RemovingPrefix, CreateEvent::PrefixRemoved) => (
            CreateStage::Solving,
            CreateAction::Solve,
        ),
        (CreateStage::Solving, CreateEvent::Solved) => match after_solve_of(dry_run, yes) {
            AfterSolve::Stop => (CreateStage::Finished, CreateAction::Finish(CreateEnd::Shown)),
            AfterSolve::Install => (CreateStage::Installing, CreateAction::Install),
            AfterSolve::Ask => (CreateStage::AskingToInstall, CreateAction::AskToInstall),
        },
        (CreateStage::AskingToInstall, CreateEvent::Answered(allowed)) => if allowed {
            (CreateStage::Installing, CreateAction::Install)
        } else {
            (CreateStage::Finished, CreateAction::Finish(CreateEnd::Aborted))
        },
        (CreateStage::Installing, CreateEvent::Installed) => (
            CreateStage::Finished,
            CreateAction::Finish(CreateEnd::Installed),
        ),
        _ => (stage, CreateAction::OutOfTurn),
    }
}

/// Where the creation of an environment starts, once its location is
/// chosen.
pub fn begin_create() -> (r: (CreateStage, CreateAction))
    ensures
        r == (CreateStage::CheckingPrefix, CreateAction::CheckPrefix),
{
    (CreateStage::CheckingPrefix, CreateAction::CheckPrefix)
}

/// Takes the report of what was last asked for, and says what to do next.
pub fn advance_create(stage: CreateStage, event: CreateEvent, dry_run: bool, yes: bool) -> (r: (
    CreateStage,
    CreateAction,
))
    ensures
        r == create_step(stage, event, dry_run, yes),
{
    match (stage, event) {
        (CreateStage::CheckingPrefix, CreateEvent::PrefixChecked(exists)) => match existing_prefix(
            exists,
            dry_run,
            yes,
        ) {
            ExistingPrefix::Proceed => (CreateStage::Solving, CreateAction::Solve),
            ExistingPrefix::RefuseDryRun => (
                CreateStage::Finished,
                CreateAction::Finish(CreateEnd::Refused),
            ),
            ExistingPrefix::Remove => (CreateStage::RemovingPrefix, CreateAction::RemovePrefix),
            ExistingPrefix::Ask => (CreateStage::AskingToRemove, CreateAction::AskToRemove),
        },
        (CreateStage::AskingToRemove, CreateEvent::Answered(true)) => (
            CreateStage::RemovingPrefix,
            CreateAction::RemovePrefix,
        ),
        (CreateStage::RemovingPrefix, CreateEvent::PrefixRemoved) => (
            CreateStage::Solving,
            CreateAction::Solve,
        ),
        (CreateStage::Solving, CreateEvent::Solved) => match after_solve(dry_run, yes) {
            AfterSolve::Stop => (CreateStage::Finished, CreateAction::Finish(CreateEnd::Shown)),
            AfterSolve::Install => (CreateStage::Installing, CreateAction::Install),
            AfterSolve::Ask => (CreateStage::AskingToInstall, CreateAction::AskToInstall),
        },
        (CreateStage::AskingToInstall, CreateEvent::Answered(true)) => (
            CreateStage::Installing,
            CreateAction::Install,
        ),
        (CreateStage::AskingToRemove, CreateEvent::Answered(false)) => (
            CreateStage::Finished,
            CreateAction::Finish(CreateEnd::Aborted),
        ),
        (CreateStage::AskingToInstall, CreateEvent::Answered(false)) => (
            CreateStage::Finished,
            CreateAction::Finish(CreateEnd::Aborted),
        ),
        (CreateStage::Installing, CreateEvent::Installed) => (
            CreateStage::Finished,
            CreateAction::Finish(CreateEnd::Installed),
        ),
        _ => (stage, CreateAction::OutOfTurn),
    }
}

/// Whether a dry run can stand at `stage`.
pub open spec fn is_dry_stage(stage: CreateStage) -> bool {
    stage == CreateStage::CheckingPrefix || stage == CreateStage::Solving || stage
        == CreateStage::Finished
}

/// Nothing is fetched or solved before the chosen location is known to be
/// free: it was found free, or what stood there was removed.
pub proof fn lemma_solve_follows_free_prefix(
    stage: CreateStage,
    event: CreateEvent,
    dry_run: bool,
    yes: bool,
)
    requires
        create_step(stage, event, dry_run, yes).1 == CreateAction::Solve,
    ensures
        (stage == CreateStage::CheckingPrefix && event == CreateEvent::PrefixChecked(false)) || (
        stage == CreateStage::RemovingPrefix && event == CreateEvent::PrefixRemoved),
{
}

/// A dry run touches nothing: whatever is reported, it asks neither to
/// remove the directory at the chosen location nor to install, it asks no
/// question, and it stays a dry run.
pub proof fn lemma_dry_run_touches_nothing(stage: CreateStage, event: CreateEvent, yes: bool)
    requires
        is_dry_stage(stage),
    ensures
        is_dry_stage(create_step(stage, event, true, yes).0),
        create_step(stage, event, true, yes).1 != CreateAction::RemovePrefix,
        create_step(stage, event, true, yes).1 != CreateAction::Install,
        create_step(stage, event, true, yes).1 != CreateAction::AskToRemove,
        create_step(stage, event, true, yes).1 != CreateAction::AskToInstall,
{
}

/// The directory at the chosen location is removed, and the packages are
/// installed, only with the user's consent: given in advance, or as the
/// answer to the question.
pub proof fn lemma_consent_comes_first(
    stage: CreateStage,
    event: CreateEvent,
    dry_run: bool,
    yes: bool,
)
    ensures
        create_step(stage, event, dry_run, yes).1 == CreateAction::RemovePrefix ==> (yes
            && !dry_run && stage == CreateStage::CheckingPrefix) || (stage
            == CreateStage::AskingToRemove && event == CreateEvent::Answered(true)),
        create_step(stage, event, dry_run, yes).1 == CreateAction::Install ==> (yes && !dry_run
            && stage == CreateStage::Solving) || (stage == CreateStage::AskingToInstall && event
            == CreateEvent::Answered(true)),
{
}

} // verus!
