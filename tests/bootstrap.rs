use runtime::{Action, Boot, BootError, Event, ExtensionError, Stage};

/// Drives a bootstrap with the given outcomes, one per action, and returns
/// every action it asked for, the first included.
fn drive(n_ext: usize, n_args: usize, outcomes: &[Event]) -> (Boot, Vec<Action>) {
    let (mut boot, first) = Boot::begin(n_ext, n_args);
    let mut actions = vec![first];
    for e in outcomes {
        actions.push(boot.step(*e));
    }
    (boot, actions)
}

fn all_done(n: usize) -> Vec<Event> {
    vec![Event::Done; n]
}

fn closes(actions: &[Action]) -> usize {
    actions.iter().filter(|a| **a == Action::Close).count()
}

#[test]
fn empty_arguments_bind_an_empty_collection() {
    let (boot, actions) = drive(1, 0, &all_done(6));
    assert_eq!(
        actions,
        vec![
            Action::CreateInterpreter,
            Action::DefineClass(0),
            Action::EvalClassSource(0),
            Action::BindArgv,
            Action::EvalScript,
            Action::Close,
            Action::Exit(None),
        ]
    );
    assert_eq!(boot.stage, Stage::Finished);
}

#[test]
fn two_arguments_are_converted_and_frozen_in_order() {
    let (_, actions) = drive(1, 2, &all_done(10));
    assert_eq!(
        actions,
        vec![
            Action::CreateInterpreter,
            Action::DefineClass(0),
            Action::EvalClassSource(0),
            Action::ConvertArg(0),
            Action::FreezeArg(0),
            Action::ConvertArg(1),
            Action::FreezeArg(1),
            Action::BindArgv,
            Action::EvalScript,
            Action::Close,
            Action::Exit(None),
        ]
    );
}

#[test]
fn extensions_are_installed_in_order() {
    let (_, actions) = drive(3, 0, &all_done(10));
    assert_eq!(
        &actions[1..7],
        &[
            Action::DefineClass(0),
            Action::EvalClassSource(0),
            Action::DefineClass(1),
            Action::EvalClassSource(1),
            Action::DefineClass(2),
            Action::EvalClassSource(2),
        ]
    );
    assert_eq!(actions[7], Action::BindArgv);
}

#[test]
fn malformed_extension_source_stops_the_bootstrap() {
    let (boot, actions) = drive(1, 2, &[Event::Done, Event::Done, Event::Failed, Event::Done, Event::Done]);
    let failure = Some(BootError::Extension(0, ExtensionError::EvalFailed));
    assert_eq!(
        actions,
        vec![
            Action::CreateInterpreter,
            Action::DefineClass(0),
            Action::EvalClassSource(0),
            Action::Close,
            Action::Exit(failure),
            Action::Exit(failure),
        ]
    );
    assert!(!actions.contains(&Action::EvalScript));
    assert!(!actions.contains(&Action::BindArgv));
    assert_eq!(boot.failure, failure);
}

#[test]
fn refused_class_definition_is_a_spec_failure() {
    let (_, actions) = drive(2, 0, &[Event::Done, Event::Done, Event::Done, Event::Failed, Event::Done]);
    assert_eq!(actions[4], Action::Close);
    assert_eq!(
        actions[5],
        Action::Exit(Some(BootError::Extension(1, ExtensionError::SpecInvalid)))
    );
}

#[test]
fn failed_creation_exits_without_closing() {
    let (boot, actions) = drive(1, 1, &[Event::Failed, Event::Done]);
    assert_eq!(
        actions,
        vec![
            Action::CreateInterpreter,
            Action::Exit(Some(BootError::Create)),
            Action::Exit(Some(BootError::Create)),
        ]
    );
    assert_eq!(closes(&actions), 0);
    assert_eq!(boot.stage, Stage::Finished);
}

#[test]
fn failed_conversion_aborts_marshalling() {
    let (_, actions) = drive(0, 3, &[Event::Done, Event::Done, Event::Done, Event::Failed, Event::Done]);
    assert_eq!(
        actions,
        vec![
            Action::CreateInterpreter,
            Action::ConvertArg(0),
            Action::FreezeArg(0),
            Action::ConvertArg(1),
            Action::Close,
            Action::Exit(Some(BootError::ArgConversion(1))),
        ]
    );
}

#[test]
fn failed_freeze_aborts_marshalling() {
    let (_, actions) = drive(0, 1, &[Event::Done, Event::Done, Event::Failed, Event::Done]);
    assert_eq!(actions[3], Action::Close);
    assert_eq!(actions[4], Action::Exit(Some(BootError::ArgFreeze(0))));
}

#[test]
fn failed_binding_aborts_before_the_script() {
    let (_, actions) = drive(0, 0, &[Event::Done, Event::Failed, Event::Done]);
    assert_eq!(
        actions,
        vec![
            Action::CreateInterpreter,
            Action::BindArgv,
            Action::Close,
            Action::Exit(Some(BootError::ArgvBinding)),
        ]
    );
}

#[test]
fn script_error_is_reported_then_closed_with_success() {
    let (_, actions) = drive(1, 0, &[Event::Done, Event::Done, Event::Done, Event::Done, Event::Failed, Event::Done, Event::Done]);
    assert_eq!(
        &actions[4..],
        &[
            Action::EvalScript,
            Action::ReportBacktrace,
            Action::Close,
            Action::Exit(None),
        ]
    );
    assert_eq!(closes(&actions), 1);
}

#[test]
fn failed_report_closes_then_fails() {
    let (boot, actions) = drive(1, 0, &[Event::Done, Event::Done, Event::Done, Event::Done, Event::Failed, Event::Failed, Event::Done]);
    assert_eq!(
        &actions[4..],
        &[
            Action::EvalScript,
            Action::ReportBacktrace,
            Action::Close,
            Action::Exit(Some(BootError::Report)),
        ]
    );
    assert_eq!(closes(&actions), 1);
    assert_eq!(boot.failure, Some(BootError::Report));
}

#[test]
fn repeated_bootstraps_each_close_once() {
    let runs: [Vec<Event>; 4] = [
        all_done(8),
        vec![Event::Done, Event::Done, Event::Failed, Event::Done, Event::Done],
        vec![Event::Done, Event::Done, Event::Done, Event::Done, Event::Done, Event::Failed, Event::Done, Event::Done],
        vec![
            Event::Done, Event::Done, Event::Done, Event::Done, Event::Done, Event::Done,
            Event::Failed, Event::Failed, Event::Done, Event::Done,
        ],
    ];
    for outcomes in runs.iter() {
        let (boot, actions) = drive(1, 1, outcomes);
        assert_eq!(closes(&actions), 1);
        assert_eq!(boot.stage, Stage::Finished);
    }
}

#[test]
fn finished_bootstrap_stays_finished() {
    let (mut boot, _) = drive(0, 0, &all_done(4));
    assert_eq!(boot.stage, Stage::Finished);
    assert_eq!(boot.step(Event::Done), Action::Exit(None));
    assert_eq!(boot.step(Event::Failed), Action::Exit(None));
    assert_eq!(boot.stage, Stage::Finished);
}
