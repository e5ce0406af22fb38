//! One run of the tool: the steps that a command takes, and how the run ends.

use vstd::prelude::*;
use vstd::string::*;

use crate::text;

verus! {

/// What the tool is asked to do.
#[derive(Debug)]
pub enum Command {
    /// Build the project.
    Build,
    /// Build the project and run it, at the given entry point if it is no archive.
    Run { entry: Option<String> },
    /// Build the project and run its tests.
    Test,
    /// Delete what was built; `purge` deletes more.
    Clean { purge: bool },
}

/// What a [`Command`] says.
pub enum CommandView {
    Build,
    Run { entry: Option<Seq<char>> },
    Test,
    Clean { purge: bool },
}

impl View for Command {
    type V = CommandView;

    open spec fn view(&self) -> CommandView {
        match self {
            Command::Build => CommandView::Build,
            Command::Run { entry } => CommandView::Run { entry: text::option_view(*entry) },
            Command::Test => CommandView::Test,
            Command::Clean { purge } => CommandView::Clean { purge: *purge },
        }
    }
}

/// Why a run failed.
#[derive(Clone, Copy, Debug, PartialEq, Eq, Structural)]
pub enum RunError {
    /// The project was built, but there is nothing in it to run.
    NoEntryPoint,
    /// A step failed, for a reason of its own.
    StepFailed,
}

impl RunError {
    /// The message for the error; a step that failed has a message of its own.
    pub fn message(self) -> (r: Option<String>)
        ensures
            text::option_view(r) == (match self {
                RunError::NoEntryPoint => Some(
                    "no entry point specified and none found in manifest"@,
                ),
                RunError::StepFailed => None,
            }),
    {
        match self {
            RunError::NoEntryPoint => Some(
                "no entry point specified and none found in manifest".to_owned(),
            ),
            RunError::StepFailed => None,
        }
    }
}

/// A step of a run.
#[derive(Debug)]
pub enum Action {
    /// Open the project, with or without the output directory and the packaging that
    /// the command line gives.
    Open { build_options: bool },
    /// Build the project.
    Build,
    /// Run the archive that was built.
    RunJar { jar: Vec<u8> },
    /// Run the classes that were built, at an entry point.
    RunClasses { entry: String },
    /// Run the tests.
    Test,
    /// Delete what was built.
    Clean { purge: bool },
    /// The run is over.
    Finish(Result<(), RunError>),
}

/// What an [`Action`] is.
pub enum ActionView {
    Open { build_options: bool },
    Build,
    RunJar { jar: Seq<u8> },
    RunClasses { entry: Seq<char> },
    Test,
    Clean { purge: bool },
    Finish(Result<(), RunError>),
}

impl View for Action {
    type V = ActionView;

    open spec fn view(&self) -> ActionView {
        match self {
            Action::Open { build_options } => ActionView::Open { build_options: *build_options },
            Action::Build => ActionView::Build,
            Action::RunJar { jar } => ActionView::RunJar { jar: jar@ },
            Action::RunClasses { entry } => ActionView::RunClasses { entry: entry@ },
            Action::Test => ActionView::Test,
            Action::Clean { purge } => ActionView::Clean { purge: *purge },
            Action::Finish(outcome) => ActionView::Finish(*outcome),
        }
    }
}

/// How a step came out.
#[derive(Debug)]
pub enum Event {
    /// The step went well.
    Done,
    /// The project was built: the archive that it was packed into, if it was, and the
    /// entry point that its manifest names, if it has one that does.
    Built { jar: Option<Vec<u8>>, manifest_entry: Option<String> },
    /// The step failed.
    Failed,
}

/// What an [`Event`] says.
pub enum EventView {
    Done,
    Built { jar: Option<Seq<u8>>, manifest_entry: Option<Seq<char>> },
    Failed,
}

/// The bytes of a string that may be missing.
pub open spec fn bytes_view(b: Option<Vec<u8>>) -> Option<Seq<u8>> {
    match b {
        Some(bytes) => Some(bytes@),
        None => None,
    }
}

impl View for Event {
    type V = EventView;

    open spec fn view(&self) -> EventView {
        match self {
            Event::Done => EventView::Done,
            Event::Built { jar, manifest_entry } => EventView::Built {
                jar: bytes_view(*jar),
                manifest_entry: text::option_view(*manifest_entry),
            },
            Event::Failed => EventView::Failed,
        }
    }
}

/// How far a run has got: the step that it waits for.
#[derive(Debug)]
pub enum Run {
    /// The project is being opened for a command.
    Opening(Command),
    /// The project is being built.
    Building,
    /// The project is being built, to be run at the given entry point.
    BuildingToRun { entry: Option<String> },
    /// What was built is running.
    Running,
    /// The tests are running.
    Testing,
    /// What was built is being deleted.
    Cleaning,
    /// The run is over.
    Finished(Result<(), RunError>),
}

/// What a [`Run`] waits for.
pub enum RunView {
    Opening(CommandView),
    Building,
    BuildingToRun { entry: Option<Seq<char>> },
    Running,
    Testing,
    Cleaning,
    Finished(Result<(), RunError>),
}

impl View for Run {
    type V = RunView;

    open spec fn view(&self) -> RunView {
        match self {
            Run::Opening(command) => RunView::Opening(command@),
            Run::Building => RunView::Building,
            Run::BuildingToRun { entry } => RunView::BuildingToRun { entry: text::option_view(*entry) },
            Run::Running => RunView::Running,
            Run::Testing => RunView::Testing,
            Run::Cleaning => RunView::Cleaning,
            Run::Finished(outcome) => RunView::Finished(*outcome),
        }
    }
}

/// What comes next in a run: the new state, whether an empty line is printed, and the
/// step to take after that.
#[derive(Debug)]
pub struct Next {
    pub run: Run,
    pub blank_line: bool,
    pub action: Action,
}

/// What a [`Next`] holds.
pub struct NextView {
    pub run: RunView,
    pub blank_line: bool,
    pub action: ActionView,
}

impl View for Next {
    type V = NextView;

    open spec fn view(&self) -> NextView {
        NextView { run: self.run@, blank_line: self.blank_line, action: self.action@ }
    }
}

/// The end of a run.
pub open spec fn finished(blank_line: bool, outcome: Result<(), RunError>) -> NextView {
    NextView {
        run: RunView::Finished(outcome),
        blank_line,
        action: ActionView::Finish(outcome),
    }
}

/// The entry point to run at: that of the command line goes before that of the
/// manifest.
pub open spec fn entry_point(
    given: Option<Seq<char>>,
    manifest_entry: Option<Seq<char>>,
) -> Option<Seq<char>> {
    if given is Some {
        given
    } else {
        manifest_entry
    }
}

impl RunView {
    /// How a run begins: with the project being opened. All commands but the one to
    /// clean up take the options of a build.
    pub open spec fn start(command: CommandView) -> NextView {
        NextView {
            run: RunView::Opening(command),
            blank_line: false,
            action: ActionView::Open { build_options: !(command is Clean) },
        }
    }

    /// What comes after a step came out as `event` says; `None` where the event does
    /// not tell how the step that the run waits for came out.
    pub open spec fn next(self, event: EventView) -> Option<NextView> {
        match (self, event) {
            (RunView::Finished(_), _) => None,
            (_, EventView::Failed) => Some(finished(false, Err(RunError::StepFailed))),
            (RunView::Opening(command), EventView::Done) => Some(
                match command {
                    CommandView::Build => NextView {
                        run: RunView::Building,
                        blank_line: false,
                        action: ActionView::Build,
                    },
                    CommandView::Run { entry } => NextView {
                        run: RunView::BuildingToRun { entry },
                        blank_line: false,
                        action: ActionView::Build,
                    },
                    CommandView::Test => NextView {
                        run: RunView::Testing,
                        blank_line: false,
                        action: ActionView::Test,
                    },
                    CommandView::Clean { purge } => NextView {
                        run: RunView::Cleaning,
                        blank_line: false,
                        action: ActionView::Clean { purge },
                    },
                },
            ),
            (RunView::Building, EventView::Built { .. }) => Some(finished(true, Ok(()))),
            (
                RunView::BuildingToRun { entry },
                EventView::Built { jar, manifest_entry },
            ) => Some(
                match (jar, entry_point(entry, manifest_entry)) {
                    (Some(jar), _) => NextView {
                        run: RunView::Running,
                        blank_line: true,
                        action: ActionView::RunJar { jar },
                    },
                    (None, Some(entry)) => NextView {
                        run: RunView::Running,
                        blank_line: true,
                        action: ActionView::RunClasses { entry },
                    },
                    (None, None) => finished(true, Err(RunError::NoEntryPoint)),
                },
            ),
            (RunView::Running, EventView::Done) => Some(finished(true, Ok(()))),
            (RunView::Testing, EventView::Done) => Some(finished(true, Ok(()))),
            (RunView::Cleaning, EventView::Done) => Some(finished(false, Ok(()))),
            _ => None,
        }
    }
}

/// The end of a run.
fn finish(blank_line: bool, outcome: Result<(), RunError>) -> (r: Next)
    ensures
        r@ == finished(blank_line, outcome),
{
    Next { run: Run::Finished(outcome), blank_line, action: Action::Finish(outcome) }
}

/// What follows once the project is open.
fn after_opening(command: Command) -> (r: Next)
    ensures
        Some(r@) == RunView::Opening(command@).next(EventView::Done),
{
    match command {
        Command::Build => Next { run: Run::Building, blank_line: false, action: Action::Build },
        Command::Run { entry } => Next {
            run: Run::BuildingToRun { entry },
            blank_line: false,
            action: Action::Build,
        },
        Command::Test => Next { run: Run::Testing, blank_line: false, action: Action::Test },
        Command::Clean { purge } => Next {
            run: Run::Cleaning,
            blank_line: false,
            action: Action::Clean { purge },
        },
    }
}

/// What follows once a project that is to be run has been built.
fn after_building_to_run(
    entry: Option<String>,
    jar: Option<Vec<u8>>,
    manifest_entry: Option<String>,
) -> (r: Next)
    ensures
        Some(r@) == (RunView::BuildingToRun { entry: text::option_view(entry) }).next(
            EventView::Built { jar: bytes_view(jar), manifest_entry: text::option_view(manifest_entry) },
        ),
{
    match jar {
        Some(jar) => Next { run: Run::Running, blank_line: true, action: Action::RunJar { jar } },
        None => {
            let chosen: Option<String> = match entry {
                Some(given) => Some(given),
                None => manifest_entry,
            };
            match chosen {
                Some(entry) => Next {
                    run: Run::Running,
                    blank_line: true,
                    action: Action::RunClasses { entry },
                },
                None => finish(true, Err(RunError::NoEntryPoint)),
            }
        },
    }
}

impl Run {
    /// Begins a run of a command.
    pub fn start(command: Command) -> (r: Next)
        ensures
            r@ == RunView::start(command@),
    {
        let build_options: bool = match &command {
            Command::Clean { .. } => false,
            _ => true,
        };
        Next {
            run: Run::Opening(command),
            blank_line: false,
            action: Action::Open { build_options },
        }
    }

    /// What comes after a step came out as `event` says. Where the event does not
    /// tell how the step that the run waits for came out, the run is handed back.
    pub fn next(self, event: Event) -> (r: Result<Next, Run>)
        ensures
            match r {
                Ok(next) => self@.next(event@) == Some(next@),
                Err(run) => self@.next(event@) is None && run@ == self@,
            },
    {
        match (self, event) {
            (Run::Finished(outcome), _) => Err(Run::Finished(outcome)),
            (_, Event::Failed) => Ok(finish(false, Err(RunError::StepFailed))),
            (Run::Opening(command), Event::Done) => Ok(after_opening(command)),
            (Run::Building, Event::Built { .. }) => Ok(finish(true, Ok(()))),
            (Run::BuildingToRun { entry }, Event::Built { jar, manifest_entry }) => Ok(
                after_building_to_run(entry, jar, manifest_entry),
            ),
            (Run::Running, Event::Done) => Ok(finish(true, Ok(()))),
            (Run::Testing, Event::Done) => Ok(finish(true, Ok(()))),
            (Run::Cleaning, Event::Done) => Ok(finish(false, Ok(()))),
            (run, _) => Err(run),
        }
    }
}

/// How the tool ends: the line that is printed to the standard error, if there is
/// one, and the exit code.
#[derive(Debug)]
pub struct Exit {
    pub line: Option<String>,
    pub code: i32,
}

/// How the tool ends after a run that went well, or that failed with the message
/// `error`. An empty message is not printed, but the run has failed all the same.
pub fn exit(error: Option<String>) -> (r: Exit)
    ensures
        r.code == (if error is Some {
            1int
        } else {
            0int
        }),
        text::option_view(r.line) == (match error {
            Some(msg) => if msg@.len() > 0 {
                Some("error: "@ + msg@)
            } else {
                None
            },
            None => None,
        }),
{
    match error {
        Some(msg) => {
            let line: Option<String> = if msg.as_str().is_empty() {
                None
            } else {
                Some("error: ".to_owned().concat(msg.as_str()))
            };
            Exit { line, code: 1 }
        },
        None => Exit { line: None, code: 0 },
    }
}

/// A run that is over takes no further step.
pub proof fn finished_run_takes_no_step(outcome: Result<(), RunError>, event: EventView)
    ensures
        RunView::Finished(outcome).next(event) is None,
{
}

/// A step that fails ends the run at once: no further step is taken and no empty line
/// is printed.
pub proof fn failed_step_ends_the_run(run: RunView)
    requires
        !(run is Finished),
    ensures
        run.next(EventView::Failed) == Some(finished(false, Err(RunError::StepFailed))),
{
}

/// The step to finish and the state go together: a run is over, with an outcome, exactly
/// where the step is to finish with that outcome.
pub proof fn last_step_tells_the_outcome(
    run: RunView,
    event: EventView,
    outcome: Result<(), RunError>,
)
    ensures
        run.next(event) matches Some(next) ==> (next.run == RunView::Finished(outcome)
            <==> next.action == ActionView::Finish(outcome)),
{
}

/// The number of steps that a run has still to wait for at most.
pub open spec fn steps_left(run: RunView) -> nat {
    match run {
        RunView::Opening(_) => 3,
        RunView::BuildingToRun { .. } => 2,
        RunView::Finished(_) => 0,
        _ => 1,
    }
}

/// Every run ends: each step brings it nearer to its end, and no run takes more than
/// three steps.
pub proof fn every_run_ends(command: CommandView, run: RunView, event: EventView)
    ensures
        steps_left(RunView::start(command).run) == 3,
        run.next(event) matches Some(next) ==> steps_left(next.run) < steps_left(run),
        steps_left(run) == 0 <==> run is Finished,
{
}

/// An archive that was built is what runs, whatever entry points there are; without
/// one the entry point of the command line is taken, and failing that the manifest's.
pub proof fn what_runs(
    given: Option<Seq<char>>,
    jar: Option<Seq<u8>>,
    manifest_entry: Option<Seq<char>>,
)
    ensures
        ({
            let next = (RunView::BuildingToRun { entry: given }).next(
                EventView::Built { jar, manifest_entry },
            )->0;
            &&& next.blank_line
            &&& jar matches Some(archive) ==> next.action == (ActionView::RunJar { jar: archive })
            &&& jar is None && given is Some ==> next.action == (ActionView::RunClasses {
                entry: given->0,
            })
            &&& jar is None && given is None && manifest_entry is Some ==> next.action == (
            ActionView::RunClasses { entry: manifest_entry->0 })
            &&& jar is None && given is None && manifest_entry is None ==> next == finished(
                true,
                Err(RunError::NoEntryPoint),
            )
        }),
{
}

/// The steps of a run that goes well, after the project was opened: a build is built;
/// a run is built and run; tests are run; a cleanup deletes. All but the cleanup end
/// with an empty line.
pub proof fn course_of_a_run(
    command: CommandView,
    jar: Option<Seq<u8>>,
    manifest_entry: Option<Seq<char>>,
)
    ensures
        ({
            let built = EventView::Built { jar, manifest_entry };
            let open = RunView::start(command).run.next(EventView::Done)->0;
            match command {
                CommandView::Build => open.action is Build && open.run.next(built) == Some(
                    finished(true, Ok(())),
                ),
                CommandView::Run { entry } => {
                    &&& open.action is Build
                    &&& jar is Some || entry is Some || manifest_entry is Some ==> ({
                        let running = open.run.next(built)->0;
                        (running.action is RunJar || running.action is RunClasses)
                            && running.run.next(EventView::Done) == Some(finished(true, Ok(())))
                    })
                },
                CommandView::Test => open.action is Test && open.run.next(EventView::Done) == Some(
                    finished(true, Ok(())),
                ),
                CommandView::Clean { purge } => open.action == (ActionView::Clean { purge })
                    && open.run.next(EventView::Done) == Some(finished(false, Ok(()))),
            }
        }),
{
}

/// The entry point of the command line is the one that runs, exactly as it was given,
/// whatever the manifest names; without one, the manifest's is, exactly as it stands
/// there. An archive that was built runs in place of either.
pub proof fn entry_point_runs_as_it_was_given(
    entry: Seq<char>,
    given: Option<Seq<char>>,
    jar: Seq<u8>,
    manifest_entry: Option<Seq<char>>,
)
    ensures
        ({
            let named = RunView::start(CommandView::Run { entry: Some(entry) }).run.next(
                EventView::Done,
            )->0;
            let bare = RunView::start(CommandView::Run { entry: None }).run.next(
                EventView::Done,
            )->0;
            let either = RunView::start(CommandView::Run { entry: given }).run.next(
                EventView::Done,
            )->0;
            &&& named.run.next(EventView::Built { jar: None, manifest_entry })->0.action
                == (ActionView::RunClasses { entry })
            &&& bare.run.next(
                EventView::Built { jar: None, manifest_entry: Some(entry) },
            )->0.action == (ActionView::RunClasses { entry })
            &&& bare.run.next(EventView::Built { jar: None, manifest_entry: None })->0.action
                == ActionView::Finish(Err(RunError::NoEntryPoint))
            &&& either.run.next(EventView::Built { jar: Some(jar), manifest_entry })->0.action == (
            ActionView::RunJar { jar })
        }),
{
}

/// Every run begins by opening the project, with the options of a build unless it is to
/// be cleaned up, and goes on to the step that its command is for. No empty line comes
/// before either.
pub proof fn first_steps_of_a_run(command: CommandView)
    ensures
        ({
            let begun = RunView::start(command);
            let opened = begun.run.next(EventView::Done);
            &&& begun.action == (ActionView::Open { build_options: !(command is Clean) })
            &&& !begun.blank_line
            &&& opened is Some
            &&& !opened->0.blank_line
            &&& match command {
                CommandView::Build => opened->0.action == ActionView::Build,
                CommandView::Run { .. } => opened->0.action == ActionView::Build,
                CommandView::Test => opened->0.action == ActionView::Test,
                CommandView::Clean { purge } => opened->0.action == (ActionView::Clean { purge }),
            }
        }),
{
}

/// What ends a run, and how: a build ends well once it is built, tests once they have
/// run, what runs once it is done, each with an empty line; a cleanup ends well without
/// one. A failed step ends the run badly, without an empty line.
pub proof fn how_a_run_ends(
    command: CommandView,
    jar: Option<Seq<u8>>,
    manifest_entry: Option<Seq<char>>,
)
    ensures
        ({
            let built = EventView::Built { jar, manifest_entry };
            let begun = RunView::start(command);
            let opened = begun.run.next(EventView::Done)->0;
            let well = ActionView::Finish(Ok(()));
            let badly = ActionView::Finish(Err(RunError::StepFailed));
            &&& begun.run.next(EventView::Failed)->0.action == badly
            &&& !begun.run.next(EventView::Failed)->0.blank_line
            &&& opened.run.next(EventView::Failed)->0.action == badly
            &&& !opened.run.next(EventView::Failed)->0.blank_line
            &&& match command {
                CommandView::Build => {
                    let next = opened.run.next(built)->0;
                    next.action == well && next.blank_line
                },
                CommandView::Run { entry } => {
                    let next = opened.run.next(built)->0;
                    let done = next.run.next(EventView::Done)->0;
                    let failed = next.run.next(EventView::Failed)->0;
                    &&& next.blank_line
                    &&& jar is Some || entry is Some || manifest_entry is Some ==> done.action
                        == well && done.blank_line && failed.action == badly && !failed.blank_line
                },
                CommandView::Test => {
                    let next = opened.run.next(EventView::Done)->0;
                    next.action == well && next.blank_line
                },
                CommandView::Clean { .. } => {
                    let next = opened.run.next(EventView::Done)->0;
                    next.action == well && !next.blank_line
                },
            }
        }),
{
}

/// An event moves a run exactly where it tells how the step that the run waits for came
/// out: any step can fail, a build comes out as something built, and the other steps
/// are done. A run that is over is moved by none.
pub proof fn which_events_move_a_run(run: RunView, event: EventView)
    ensures
        run.next(event) is Some <==> !(run is Finished) && (event is Failed || (event is Built <==> (
        run is Building || run is BuildingToRun))),
        run.next(event) matches Some(next) ==> (next.action is Finish <==> next.run is Finished),
{
}

/// What a run is made of is seen whole: the command, its steps and how they came out.
pub proof fn runs_are_seen_whole(command: Command, action: Action, event: Event, run: Run)
    ensures
        match command {
            Command::Build => command@ == CommandView::Build,
            Command::Run { entry } => command@ == (CommandView::Run {
                entry: text::option_view(entry),
            }),
            Command::Test => command@ == CommandView::Test,
            Command::Clean { purge } => command@ == (CommandView::Clean { purge }),
        },
        match action {
            Action::Open { build_options } => action@ == (ActionView::Open { build_options }),
            Action::Build => action@ == ActionView::Build,
            Action::RunJar { jar } => action@ == (ActionView::RunJar { jar: jar@ }),
            Action::RunClasses { entry } => action@ == (ActionView::RunClasses { entry: entry@ }),
            Action::Test => action@ == ActionView::Test,
            Action::Clean { purge } => action@ == (ActionView::Clean { purge }),
            Action::Finish(outcome) => action@ == ActionView::Finish(outcome),
        },
        match event {
            Event::Done => event@ == EventView::Done,
            Event::Built { jar, manifest_entry } => {
                &&& event@->manifest_entry == text::option_view(manifest_entry)
                &&& jar is Some <==> event@->jar is Some
                &&& jar matches Some(bytes) ==> event@->jar == Some(bytes@)
                &&& event@ is Built
            },
            Event::Failed => event@ == EventView::Failed,
        },
        match run {
            Run::Opening(command) => run@ == RunView::Opening(command@),
            Run::Building => run@ == RunView::Building,
            Run::BuildingToRun { entry } => run@ == (RunView::BuildingToRun {
                entry: text::option_view(entry),
            }),
            Run::Running => run@ == RunView::Running,
            Run::Testing => run@ == RunView::Testing,
            Run::Cleaning => run@ == RunView::Cleaning,
            Run::Finished(outcome) => run@ == RunView::Finished(outcome),
        },
{
}

/// What comes next is seen whole.
pub proof fn next_steps_are_seen_whole(next: Next)
    ensures
        next@.run == next.run@,
        next@.blank_line == next.blank_line,
        next@.action == next.action@,
{
}

} // verus!
