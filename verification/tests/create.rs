use pixi_conda::create::{
    advance_create, after_solve, begin_create, choose_prefix, existing_prefix, select_channels,
    AfterSolve, CreateAction, CreateEnd, CreateEvent, CreateStage, ExistingPrefix, MissingTarget,
    PrefixChoice, PrefixSource, PrefixWarning,
};
use pixi_conda::input::{lower_ascii, EnvironmentInput, InputError, InputFileKind};

fn path(text: &str) -> Vec<String> {
    text.split('/').filter(|c| !c.is_empty()).map(|c| c.to_string()).collect()
}

fn texts(items: &[&str]) -> Vec<String> {
    items.iter().map(|s| s.to_string()).collect()
}

#[test]
fn the_command_line_prefix_wins() {
    assert_eq!(
        choose_prefix(true, true, true, true),
        Ok(PrefixChoice {
            source: PrefixSource::ArgumentPrefix,
            warning: Some(PrefixWarning::PrefixOverridesInputPrefix)
        })
    );
    assert_eq!(
        choose_prefix(true, false, false, true),
        Ok(PrefixChoice {
            source: PrefixSource::ArgumentPrefix,
            warning: Some(PrefixWarning::PrefixOverridesInputName)
        })
    );
    assert_eq!(
        choose_prefix(true, false, false, false),
        Ok(PrefixChoice { source: PrefixSource::ArgumentPrefix, warning: None })
    );
}

#[test]
fn the_command_line_name_comes_next() {
    assert_eq!(
        choose_prefix(false, true, true, true),
        Ok(PrefixChoice {
            source: PrefixSource::ArgumentName,
            warning: Some(PrefixWarning::NameOverridesInputPrefix)
        })
    );
    assert_eq!(
        choose_prefix(false, true, false, true),
        Ok(PrefixChoice {
            source: PrefixSource::ArgumentName,
            warning: Some(PrefixWarning::NameOverridesInputName)
        })
    );
    assert_eq!(
        choose_prefix(false, true, false, false),
        Ok(PrefixChoice { source: PrefixSource::ArgumentName, warning: None })
    );
}

#[test]
fn the_input_file_decides_where_the_command_line_is_silent() {
    assert_eq!(
        choose_prefix(false, false, true, true),
        Ok(PrefixChoice {
            source: PrefixSource::InputPrefix,
            warning: Some(PrefixWarning::InputPrefixOverridesInputName)
        })
    );
    assert_eq!(
        choose_prefix(false, false, true, false),
        Ok(PrefixChoice { source: PrefixSource::InputPrefix, warning: None })
    );
    assert_eq!(
        choose_prefix(false, false, false, true),
        Ok(PrefixChoice { source: PrefixSource::InputName, warning: None })
    );
    assert_eq!(choose_prefix(false, false, false, false), Err(MissingTarget));
}

#[test]
fn a_directory_in_the_way_is_removed_only_with_consent() {
    assert_eq!(existing_prefix(false, false, false), ExistingPrefix::Proceed);
    assert_eq!(existing_prefix(false, true, true), ExistingPrefix::Proceed);
    assert_eq!(existing_prefix(true, true, false), ExistingPrefix::RefuseDryRun);
    assert_eq!(existing_prefix(true, true, true), ExistingPrefix::RefuseDryRun);
    assert_eq!(existing_prefix(true, false, true), ExistingPrefix::Remove);
    assert_eq!(existing_prefix(true, false, false), ExistingPrefix::Ask);
}

#[test]
fn a_dry_run_stops_after_the_solve() {
    assert_eq!(after_solve(true, true), AfterSolve::Stop);
    assert_eq!(after_solve(true, false), AfterSolve::Stop);
    assert_eq!(after_solve(false, true), AfterSolve::Install);
    assert_eq!(after_solve(false, false), AfterSolve::Ask);
}

#[test]
fn channels_of_the_input_follow_those_of_the_command_line() {
    let selection = select_channels(&texts(&["a", "b"]), &texts(&["d"]), &texts(&["c"]), false);
    assert_eq!(selection.channels, texts(&["a", "b", "c"]));
    assert!(!selection.input_ignored);
}

#[test]
fn the_defaults_stand_in_for_a_silent_command_line() {
    let selection = select_channels(&vec![], &texts(&["conda-forge"]), &texts(&["bioconda"]), false);
    assert_eq!(selection.channels, texts(&["conda-forge", "bioconda"]));
    let selection = select_channels(&vec![], &vec![], &vec![], false);
    assert!(selection.channels.is_empty());
}

#[test]
fn overriding_passes_over_the_channels_of_the_input() {
    let selection = select_channels(&texts(&["a"]), &texts(&["d"]), &texts(&["c"]), true);
    assert_eq!(selection.channels, texts(&["a"]));
    assert!(selection.input_ignored);
    let selection = select_channels(&texts(&["a"]), &texts(&["d"]), &vec![], true);
    assert!(!selection.input_ignored);
}

#[test]
fn the_extension_tells_the_kind_of_an_input_file() {
    assert_eq!(InputFileKind::from_path(&path("env/environment.yaml")), Some(InputFileKind::EnvironmentYaml));
    assert_eq!(InputFileKind::from_path(&path("ENV.YAML")), Some(InputFileKind::EnvironmentYaml));
    assert_eq!(InputFileKind::from_path(&path("explicit.TxT")), Some(InputFileKind::ExplicitFile));
    assert_eq!(InputFileKind::from_path(&path("a.b.txt")), Some(InputFileKind::ExplicitFile));
    assert_eq!(InputFileKind::from_path(&path("environment.yml")), None);
    assert_eq!(InputFileKind::from_path(&path("yaml")), None);
    assert_eq!(InputFileKind::from_path(&path(".yaml")), None);
    assert_eq!(InputFileKind::from_path(&path("x.yaml/..")), None);
    assert_eq!(InputFileKind::from_path(&path("x.yamlx")), None);
    assert_eq!(InputFileKind::from_path(&path("x.")), None);
    assert_eq!(InputFileKind::from_path(&vec![]), None);
}

#[test]
fn ascii_capitals_are_lowered() {
    assert_eq!(lower_ascii('A'), 'a');
    assert_eq!(lower_ascii('Z'), 'z');
    assert_eq!(lower_ascii('a'), 'a');
    assert_eq!(lower_ascii('['), '[');
    assert_eq!(lower_ascii('@'), '@');
    assert_eq!(lower_ascii('É'), 'É');
}

#[test]
fn specs_win_over_files() {
    assert_eq!(
        EnvironmentInput::from_files_or_specs(vec![path("a.yaml")], texts(&["python >=3.10"])),
        Ok(EnvironmentInput::Specs(texts(&["python >=3.10"])))
    );
}

#[test]
fn an_environment_file_must_be_alone() {
    assert_eq!(
        EnvironmentInput::from_files_or_specs(vec![path("dir/a.yaml")], vec![]),
        Ok(EnvironmentInput::EnvironmentYaml(path("dir/a.yaml")))
    );
    assert_eq!(
        EnvironmentInput::from_files_or_specs(vec![path("a.yaml"), path("b.yaml")], vec![]),
        Err(InputError::MultipleEnvironmentYamlFiles)
    );
}

#[test]
fn explicit_files_are_all_taken() {
    assert_eq!(
        EnvironmentInput::from_files_or_specs(vec![path("a.txt"), path("b.yaml")], vec![]),
        Ok(EnvironmentInput::Files(vec![path("a.txt"), path("b.yaml")]))
    );
}

#[test]
fn a_file_of_unknown_kind_is_refused() {
    assert_eq!(
        EnvironmentInput::from_files_or_specs(vec![path("a.json"), path("b.yaml")], vec![]),
        Err(InputError::InvalidInputFile(path("a.json")))
    );
}

fn run_create(exists: bool, dry_run: bool, yes: bool, answers: &[bool]) -> Vec<CreateAction> {
    let mut answers = answers.iter();
    let (mut stage, mut action) = begin_create();
    let mut actions = vec![action];
    loop {
        let event = match action {
            CreateAction::CheckPrefix => CreateEvent::PrefixChecked(exists),
            CreateAction::AskToRemove | CreateAction::AskToInstall => {
                CreateEvent::Answered(*answers.next().unwrap())
            }
            CreateAction::RemovePrefix => CreateEvent::PrefixRemoved,
            CreateAction::Solve => CreateEvent::Solved,
            CreateAction::Install => CreateEvent::Installed,
            CreateAction::Finish(_) => return actions,
            CreateAction::OutOfTurn => panic!("lost the turn"),
        };
        (stage, action) = advance_create(stage, event, dry_run, yes);
        actions.push(action);
    }
}

#[test]
fn a_free_location_is_solved_then_installed_with_consent() {
    assert_eq!(
        run_create(false, false, true, &[]),
        vec![
            CreateAction::CheckPrefix,
            CreateAction::Solve,
            CreateAction::Install,
            CreateAction::Finish(CreateEnd::Installed)
        ]
    );
    assert_eq!(
        run_create(false, false, false, &[true]),
        vec![
            CreateAction::CheckPrefix,
            CreateAction::Solve,
            CreateAction::AskToInstall,
            CreateAction::Install,
            CreateAction::Finish(CreateEnd::Installed)
        ]
    );
    assert_eq!(
        run_create(false, false, false, &[false]),
        vec![
            CreateAction::CheckPrefix,
            CreateAction::Solve,
            CreateAction::AskToInstall,
            CreateAction::Finish(CreateEnd::Aborted)
        ]
    );
}

#[test]
fn a_taken_location_is_cleared_before_anything_is_fetched() {
    assert_eq!(
        run_create(true, false, true, &[]),
        vec![
            CreateAction::CheckPrefix,
            CreateAction::RemovePrefix,
            CreateAction::Solve,
            CreateAction::Install,
            CreateAction::Finish(CreateEnd::Installed)
        ]
    );
    assert_eq!(
        run_create(true, false, false, &[true, true]),
        vec![
            CreateAction::CheckPrefix,
            CreateAction::AskToRemove,
            CreateAction::RemovePrefix,
            CreateAction::Solve,
            CreateAction::AskToInstall,
            CreateAction::Install,
            CreateAction::Finish(CreateEnd::Installed)
        ]
    );
    assert_eq!(
        run_create(true, false, false, &[false]),
        vec![
            CreateAction::CheckPrefix,
            CreateAction::AskToRemove,
            CreateAction::Finish(CreateEnd::Aborted)
        ]
    );
}

#[test]
fn a_dry_run_touches_nothing() {
    assert_eq!(
        run_create(true, true, true, &[]),
        vec![CreateAction::CheckPrefix, CreateAction::Finish(CreateEnd::Refused)]
    );
    assert_eq!(
        run_create(false, true, false, &[]),
        vec![CreateAction::CheckPrefix, CreateAction::Solve, CreateAction::Finish(CreateEnd::Shown)]
    );
}

#[test]
fn an_event_out_of_turn_changes_nothing() {
    assert_eq!(
        advance_create(CreateStage::Solving, CreateEvent::Installed, false, true),
        (CreateStage::Solving, CreateAction::OutOfTurn)
    );
    assert_eq!(
        advance_create(CreateStage::Finished, CreateEvent::Solved, false, true),
        (CreateStage::Finished, CreateAction::OutOfTurn)
    );
    assert_eq!(
        advance_create(CreateStage::Installing, CreateEvent::Answered(true), false, true),
        (CreateStage::Installing, CreateAction::OutOfTurn)
    );
}
