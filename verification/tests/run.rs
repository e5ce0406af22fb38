use borneo::progress::Stopped;
use borneo::run::{exit, Action, Command, Event, Next, Run, RunError};

/// The step, after a mark if an empty line comes first.
fn step(next: &Next) -> String {
    let action = match &next.action {
        Action::Open { build_options } => format!("open {build_options}"),
        Action::Build => "build".to_string(),
        Action::RunJar { jar } => format!("jar {}", String::from_utf8_lossy(jar)),
        Action::RunClasses { entry } => format!("classes {entry}"),
        Action::Test => "test".to_string(),
        Action::Clean { purge } => format!("clean {purge}"),
        Action::Finish(outcome) => format!("finish {outcome:?}"),
    };
    format!("{}{action}", if next.blank_line { "*" } else { "" })
}

/// The steps of a run whose events are as given.
fn steps(command: Command, events: Vec<Event>) -> Vec<String> {
    let mut next = Run::start(command);
    let mut steps = vec![step(&next)];
    for event in events {
        next = next.run.next(event).unwrap();
        steps.push(step(&next));
    }
    steps
}

fn built(jar: Option<&str>, entry: Option<&str>) -> Event {
    Event::Built {
        jar: jar.map(|j| j.as_bytes().to_vec()),
        manifest_entry: entry.map(String::from),
    }
}

fn run(entry: Option<&str>) -> Command {
    Command::Run { entry: entry.map(String::from) }
}

#[test]
fn a_build_is_opened_and_built() {
    assert_eq!(
        steps(Command::Build, vec![Event::Done, built(None, None)]),
        vec!["open true", "build", "*finish Ok(())"]
    );
    assert_eq!(
        steps(Command::Build, vec![Event::Done, built(Some("x.jar"), Some("Main"))]),
        vec!["open true", "build", "*finish Ok(())"]
    );
}

#[test]
fn an_archive_is_run_before_any_entry_point() {
    assert_eq!(
        steps(run(Some("A")), vec![Event::Done, built(Some("x.jar"), Some("B")), Event::Done]),
        vec!["open true", "build", "*jar x.jar", "*finish Ok(())"]
    );
}

#[test]
fn the_command_line_names_the_entry_point_before_the_manifest() {
    assert_eq!(
        steps(run(Some("A")), vec![Event::Done, built(None, Some("B")), Event::Done]),
        vec!["open true", "build", "*classes A", "*finish Ok(())"]
    );
    assert_eq!(
        steps(run(None), vec![Event::Done, built(None, Some("B")), Event::Done]),
        vec!["open true", "build", "*classes B", "*finish Ok(())"]
    );
}

#[test]
fn a_run_without_an_entry_point_fails() {
    assert_eq!(
        steps(run(None), vec![Event::Done, built(None, None)]),
        vec!["open true", "build", "*finish Err(NoEntryPoint)"]
    );
    assert_eq!(
        RunError::NoEntryPoint.message().unwrap(),
        "no entry point specified and none found in manifest"
    );
}

#[test]
fn tests_are_run_once_the_project_is_open() {
    assert_eq!(
        steps(Command::Test, vec![Event::Done, Event::Done]),
        vec!["open true", "test", "*finish Ok(())"]
    );
}

#[test]
fn a_cleanup_ends_without_an_empty_line() {
    for purge in [false, true] {
        assert_eq!(
            steps(Command::Clean { purge }, vec![Event::Done, Event::Done]),
            vec!["open false".to_string(), format!("clean {purge}"), "finish Ok(())".to_string()]
        );
    }
}

#[test]
fn a_failed_step_is_the_last() {
    assert_eq!(
        steps(Command::Build, vec![Event::Failed]),
        vec!["open true", "finish Err(StepFailed)"]
    );
    assert_eq!(
        steps(Command::Build, vec![Event::Done, Event::Failed]),
        vec!["open true", "build", "finish Err(StepFailed)"]
    );
    assert_eq!(
        steps(run(None), vec![Event::Done, built(Some("x.jar"), None), Event::Failed]),
        vec!["open true", "build", "*jar x.jar", "finish Err(StepFailed)"]
    );
    assert_eq!(
        steps(Command::Clean { purge: true }, vec![Event::Done, Event::Failed]),
        vec!["open false", "clean true", "finish Err(StepFailed)"]
    );
    assert_eq!(RunError::StepFailed.message(), None);
}

#[test]
fn a_run_that_is_over_takes_no_step() {
    for event in [Event::Done, Event::Failed, built(None, None)] {
        let over = Run::Finished(Ok(()));
        assert!(matches!(over.next(event), Err(Run::Finished(Ok(())))));
    }
}

#[test]
fn an_event_that_answers_nothing_hands_the_run_back() {
    assert!(matches!(Run::Building.next(Event::Done), Err(Run::Building)));
    assert!(matches!(Run::Testing.next(built(None, None)), Err(Run::Testing)));
    assert!(matches!(
        Run::Opening(Command::Test).next(built(None, None)),
        Err(Run::Opening(Command::Test))
    ));
}

#[test]
fn the_exit_code_tells_whether_the_run_failed() {
    let well = exit(None);
    assert_eq!((well.line, well.code), (None, 0));
    let badly = exit(Some("no such file".to_string()));
    assert_eq!((badly.line, badly.code), (Some("error: no such file".to_string()), 1));
    let silently = exit(Some(String::new()));
    assert_eq!((silently.line, silently.code), (None, 1));
}

#[test]
fn a_stopped_display_adds_no_message() {
    let stopped = exit(Some(Stopped.message()));
    assert_eq!((stopped.line, stopped.code), (None, 1));
}
