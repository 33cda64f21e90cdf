use pipeline_shell::executor::{Action, Event, Executor, Input, Output, Step};
use pipeline_shell::machine::Phase;
use pipeline_shell::report::Report;

const NOT_FOUND: &str = "No such file or directory (os error 2)";

fn s(text: &str) -> String {
    text.to_string()
}

fn spawn(stage: usize, program: &str, arguments: &[&str], input: Input, output: Output) -> Action {
    Action::Spawn {
        stage,
        program: s(program),
        arguments: arguments.iter().map(|a| s(a)).collect(),
        input,
        output,
    }
}

fn quiet(action: Action) -> Step {
    Step { report: None, action }
}

fn loud(report: Report, action: Action) -> Step {
    Step { report: Some(report), action }
}

fn exited(success: bool) -> Event {
    Event::Exited {
        success,
        status: s(if success { "exit status: 0" } else { "exit status: 1" }),
    }
}

/// A driver without a system under it: programs named in `missing` cannot be
/// started, those named in `failing` end without success, and no directory
/// named in `closed` can be entered. It keeps count of the children that run.
struct World {
    missing: Vec<&'static str>,
    failing: Vec<&'static str>,
    closed: Vec<&'static str>,
    home: Option<&'static str>,
    names: Vec<String>,
    running: Vec<bool>,
    directory: String,
    log: Vec<Step>,
}

impl World {
    fn new() -> World {
        World {
            missing: vec![],
            failing: vec![],
            closed: vec![],
            home: Some("/home/me"),
            names: vec![],
            running: vec![],
            directory: s("/start"),
            log: vec![],
        }
    }

    fn answer(&mut self, action: &Action) -> Option<Event> {
        match action {
            Action::Spawn { stage, program, input, .. } => {
                assert_eq!(*stage, self.names.len());
                if let Input::Piped { from } = input {
                    assert_eq!(*from + 1, *stage);
                }
                if self.missing.contains(&program.as_str()) {
                    Some(Event::SpawnFailed { cause: s(NOT_FOUND) })
                } else {
                    self.names.push(program.clone());
                    self.running.push(true);
                    Some(Event::Spawned)
                }
            }
            Action::LookUpHome => Some(Event::Home { directory: self.home.map(s) }),
            Action::ChangeDirectory { target } => {
                if self.closed.contains(&target.as_str()) {
                    Some(Event::DirectoryChangeFailed { cause: s(NOT_FOUND) })
                } else {
                    self.directory = target.clone();
                    Some(Event::DirectoryChanged)
                }
            }
            Action::Terminate { handle } => {
                assert!(self.running[*handle]);
                self.running[*handle] = false;
                Some(Event::Terminated)
            }
            Action::Wait { handle } => {
                assert!(self.running[*handle]);
                self.running[*handle] = false;
                Some(exited(!self.failing.contains(&self.names[*handle].as_str())))
            }
            Action::Finish => None,
        }
    }

    fn run(&mut self, line: &str) -> Vec<Step> {
        let (mut executor, mut step) = Executor::launch(line);
        let mut log = vec![];
        let mut turns = 0;
        loop {
            turns += 1;
            assert!(turns <= 2 * line.len() + 3);
            log.push(step.clone());
            match self.answer(&step.action) {
                Some(event) => step = executor.step(event),
                None => break,
            }
        }
        assert_eq!(executor.phase(), Phase::Done);
        self.log = log.clone();
        log
    }

    fn spawned(&self) -> usize {
        self.names.len()
    }

    fn surviving(&self) -> usize {
        self.running.iter().filter(|r| **r).count()
    }

    fn reports(&self) -> Vec<Report> {
        self.log.iter().filter_map(|step| step.report.clone()).collect()
    }
}

#[test]
fn single_stage_writes_to_the_terminal() {
    let (mut executor, first) = Executor::launch("ls -l /tmp");
    assert_eq!(
        first,
        quiet(spawn(0, "ls", &["-l", "/tmp"], Input::Inherited, Output::Inherited))
    );
    assert_eq!(executor.phase(), Phase::Spawning);
    assert_eq!(executor.step(Event::Spawned), quiet(Action::Wait { handle: 0 }));
    assert_eq!(executor.phase(), Phase::Waiting);
    assert_eq!(executor.step(exited(true)), quiet(Action::Finish));
    assert_eq!(executor.phase(), Phase::Done);
}

#[test]
fn every_line_without_pipe_is_one_unpiped_stage() {
    for line in ["ls", "echo a b c", "  grep   x  ", "nonexistent_binary_xyz", "cdx", "c d"] {
        let mut world = World::new();
        let log = world.run(line);
        assert_eq!(world.spawned(), 1);
        match &log[0].action {
            Action::Spawn { stage, input, output, .. } => {
                assert_eq!(*stage, 0);
                assert_eq!(*input, Input::Inherited);
                assert_eq!(*output, Output::Inherited);
            }
            other => panic!("{:?}", other),
        }
        assert_eq!(log.len(), 3);
    }
}

#[test]
fn three_stages_are_chained_and_waited_for_in_order() {
    let (mut executor, first) = Executor::launch("cmdA | cmdB | cmdC");
    assert_eq!(first, quiet(spawn(0, "cmdA", &[], Input::Inherited, Output::Piped)));
    assert_eq!(
        executor.step(Event::Spawned),
        quiet(spawn(1, "cmdB", &[], Input::Piped { from: 0 }, Output::Piped))
    );
    assert_eq!(
        executor.step(Event::Spawned),
        quiet(spawn(2, "cmdC", &[], Input::Piped { from: 1 }, Output::Inherited))
    );
    assert_eq!(executor.step(Event::Spawned), quiet(Action::Wait { handle: 0 }));
    assert_eq!(executor.step(exited(true)), quiet(Action::Wait { handle: 1 }));
    assert_eq!(executor.step(exited(true)), quiet(Action::Wait { handle: 2 }));
    assert_eq!(executor.step(exited(true)), quiet(Action::Finish));
}

#[test]
fn pending_repeats_the_last_action() {
    let (mut executor, first) = Executor::launch("a | b");
    assert_eq!(executor.pending(), first.action);
    let second = executor.step(Event::Spawned);
    assert_eq!(executor.pending(), second.action);
    assert_eq!(executor.pending(), spawn(1, "b", &[], Input::Piped { from: 0 }, Output::Inherited));
}

#[test]
fn cd_alone_changes_the_directory_and_spawns_nothing() {
    let (mut executor, first) = Executor::launch("cd /tmp");
    assert_eq!(first, quiet(Action::ChangeDirectory { target: s("/tmp") }));
    assert_eq!(executor.phase(), Phase::ChangingDirectory);
    assert_eq!(executor.step(Event::DirectoryChanged), quiet(Action::Finish));

    let mut world = World::new();
    world.run("cd /tmp");
    assert_eq!(world.directory, "/tmp");
    assert_eq!(world.spawned(), 0);
    assert!(world.reports().is_empty());
}

#[test]
fn cd_without_argument_goes_home() {
    let (mut executor, first) = Executor::launch("cd");
    assert_eq!(first, quiet(Action::LookUpHome));
    assert_eq!(executor.phase(), Phase::ResolvingHome);
    assert_eq!(
        executor.step(Event::Home { directory: Some(s("/home/me")) }),
        quiet(Action::ChangeDirectory { target: s("/home/me") })
    );
    assert_eq!(executor.step(Event::DirectoryChanged), quiet(Action::Finish));
}

#[test]
fn cd_without_argument_or_home_goes_to_the_root() {
    let (mut executor, first) = Executor::launch("cd");
    assert_eq!(first, quiet(Action::LookUpHome));
    assert_eq!(
        executor.step(Event::Home { directory: None }),
        quiet(Action::ChangeDirectory { target: s("/") })
    );

    let mut world = World::new();
    world.home = None;
    world.run("  cd  ");
    assert_eq!(world.directory, "/");
}

#[test]
fn cd_failure_is_reported_and_ends_the_line() {
    let (mut executor, first) = Executor::launch("cd /nowhere");
    assert_eq!(first, quiet(Action::ChangeDirectory { target: s("/nowhere") }));
    let step = executor.step(Event::DirectoryChangeFailed { cause: s(NOT_FOUND) });
    assert_eq!(
        step,
        loud(
            Report::DirectoryChangeFailure { target: s("/nowhere"), cause: s(NOT_FOUND) },
            Action::Finish
        )
    );
    assert_eq!(
        step.report.unwrap().message(),
        "Error changing directory to /nowhere: No such file or directory (os error 2)"
    );
}

#[test]
fn cd_failure_after_home_names_the_home_directory() {
    let mut world = World::new();
    world.closed = vec!["/home/me"];
    world.run("cd");
    assert_eq!(
        world.reports(),
        vec![Report::DirectoryChangeFailure { target: s("/home/me"), cause: s(NOT_FOUND) }]
    );
    assert_eq!(world.directory, "/start");
}

#[test]
fn cd_after_a_program_is_rejected_and_the_program_put_down() {
    let (mut executor, first) = Executor::launch("ls | cd /tmp");
    assert_eq!(first, quiet(spawn(0, "ls", &[], Input::Inherited, Output::Piped)));
    assert_eq!(
        executor.step(Event::Spawned),
        loud(Report::BuiltinInPipeline, Action::Terminate { handle: 0 })
    );
    assert_eq!(executor.phase(), Phase::Terminating);
    assert_eq!(executor.step(Event::Terminated), quiet(Action::Finish));

    let mut world = World::new();
    world.run("ls | cd /tmp");
    assert_eq!(world.reports(), vec![Report::BuiltinInPipeline]);
    assert_eq!(world.surviving(), 0);
    assert_eq!(world.directory, "/start");
}

#[test]
fn cd_before_a_program_is_rejected_before_any_spawn() {
    let (executor, first) = Executor::launch("cd /tmp | ls");
    assert_eq!(first, loud(Report::BuiltinInPipeline, Action::Finish));
    assert_eq!(executor.phase(), Phase::Done);

    let mut world = World::new();
    world.run("cd /tmp | ls");
    assert_eq!(world.spawned(), 0);
    assert_eq!(world.directory, "/start");
}

#[test]
fn leading_pipe_is_an_empty_stage() {
    let (executor, first) = Executor::launch("| ls");
    assert_eq!(first, loud(Report::EmptyStage, Action::Finish));
    assert_eq!(executor.phase(), Phase::Done);
    assert_eq!(first.report.unwrap().message(), "Error: empty command in pipeline.");
}

#[test]
fn trailing_pipe_is_an_empty_stage() {
    let (mut executor, first) = Executor::launch("ls |");
    assert_eq!(first, quiet(spawn(0, "ls", &[], Input::Inherited, Output::Piped)));
    assert_eq!(
        executor.step(Event::Spawned),
        loud(Report::EmptyStage, Action::Terminate { handle: 0 })
    );
    assert_eq!(executor.step(Event::Terminated), quiet(Action::Finish));
}

#[test]
fn doubled_pipe_is_an_empty_stage() {
    let (mut executor, first) = Executor::launch("ls || ls");
    assert_eq!(first, quiet(spawn(0, "ls", &[], Input::Inherited, Output::Piped)));
    assert_eq!(
        executor.step(Event::Spawned),
        loud(Report::EmptyStage, Action::Terminate { handle: 0 })
    );
    assert_eq!(executor.step(Event::Terminated), quiet(Action::Finish));
}

#[test]
fn empty_stages_leave_no_child_behind() {
    let lines = [("| ls", 0), ("ls |", 1), ("ls || ls", 1), ("a | b | | c", 2), ("|", 0)];
    for (line, spawned) in lines {
        let mut world = World::new();
        world.run(line);
        assert_eq!(world.reports(), vec![Report::EmptyStage], "{}", line);
        assert_eq!(world.spawned(), spawned, "{}", line);
        assert_eq!(world.surviving(), 0, "{}", line);
    }
}

#[test]
fn blank_line_is_an_empty_stage() {
    let (_, first) = Executor::launch("");
    assert_eq!(first, loud(Report::EmptyStage, Action::Finish));
    let (_, first) = Executor::launch("   ");
    assert_eq!(first, loud(Report::EmptyStage, Action::Finish));
}

#[test]
fn missing_program_is_a_spawn_failure() {
    let (mut executor, first) = Executor::launch("nonexistent_binary_xyz");
    assert_eq!(
        first,
        quiet(spawn(0, "nonexistent_binary_xyz", &[], Input::Inherited, Output::Inherited))
    );
    let step = executor.step(Event::SpawnFailed { cause: s(NOT_FOUND) });
    assert_eq!(
        step,
        loud(
            Report::SpawnFailure { command: s("nonexistent_binary_xyz"), cause: s(NOT_FOUND) },
            Action::Finish
        )
    );
    assert_eq!(
        step.report.unwrap().message(),
        "Error executing command 'nonexistent_binary_xyz': No such file or directory (os error 2)"
    );

    let mut world = World::new();
    world.missing = vec!["nonexistent_binary_xyz"];
    world.run("nonexistent_binary_xyz");
    assert_eq!(world.spawned(), 0);
    assert_eq!(world.surviving(), 0);
}

#[test]
fn spawn_failure_puts_the_earlier_children_down_in_order() {
    let (mut executor, _) = Executor::launch("a | b | nope | c");
    executor.step(Event::Spawned);
    assert_eq!(
        executor.step(Event::Spawned),
        quiet(spawn(2, "nope", &[], Input::Piped { from: 1 }, Output::Piped))
    );
    assert_eq!(
        executor.step(Event::SpawnFailed { cause: s(NOT_FOUND) }),
        loud(
            Report::SpawnFailure { command: s("nope"), cause: s(NOT_FOUND) },
            Action::Terminate { handle: 0 }
        )
    );
    assert_eq!(executor.step(Event::Terminated), quiet(Action::Terminate { handle: 1 }));
    assert_eq!(executor.step(Event::Terminated), quiet(Action::Finish));

    let mut world = World::new();
    world.missing = vec!["nope"];
    world.run("a | b | nope | c");
    assert_eq!(world.spawned(), 2);
    assert_eq!(world.surviving(), 0);
}

#[test]
fn failing_stage_is_reported_and_both_are_waited_for() {
    let (mut executor, first) = Executor::launch("false | true");
    assert_eq!(first, quiet(spawn(0, "false", &[], Input::Inherited, Output::Piped)));
    assert_eq!(
        executor.step(Event::Spawned),
        quiet(spawn(1, "true", &[], Input::Piped { from: 0 }, Output::Inherited))
    );
    assert_eq!(executor.step(Event::Spawned), quiet(Action::Wait { handle: 0 }));
    let step = executor.step(exited(false));
    assert_eq!(
        step,
        loud(
            Report::NonZeroExit { command: s("false"), status: s("exit status: 1") },
            Action::Wait { handle: 1 }
        )
    );
    assert_eq!(
        step.report.unwrap().message(),
        "Command 'false' failed with status: exit status: 1"
    );
    assert_eq!(executor.step(exited(true)), quiet(Action::Finish));

    let mut world = World::new();
    world.failing = vec!["false"];
    world.run("false | true");
    assert_eq!(world.spawned(), 2);
    assert_eq!(world.surviving(), 0);
    assert_eq!(
        world.reports(),
        vec![Report::NonZeroExit { command: s("false"), status: s("exit status: 1") }]
    );
}

#[test]
fn wait_failure_is_reported_and_the_wait_goes_on() {
    let (mut executor, _) = Executor::launch("a x | b y");
    executor.step(Event::Spawned);
    assert_eq!(executor.step(Event::Spawned), quiet(Action::Wait { handle: 0 }));
    assert_eq!(
        executor.step(Event::WaitFailed { cause: s("interrupted") }),
        loud(
            Report::WaitFailure { command: s("a"), cause: s("interrupted") },
            Action::Wait { handle: 1 }
        )
    );
    assert_eq!(
        executor.step(Event::WaitFailed { cause: s("gone") }),
        loud(Report::WaitFailure { command: s("b"), cause: s("gone") }, Action::Finish)
    );
}

#[test]
fn answers_to_other_actions_change_nothing() {
    let (mut executor, first) = Executor::launch("a | b");
    for event in [
        Event::Terminated,
        exited(false),
        Event::WaitFailed { cause: s("x") },
        Event::Home { directory: None },
        Event::DirectoryChanged,
        Event::DirectoryChangeFailed { cause: s("x") },
    ] {
        assert_eq!(executor.step(event), first);
        assert_eq!(executor.phase(), Phase::Spawning);
    }
    executor.step(Event::Spawned);
    let waiting = executor.step(Event::Spawned);
    assert_eq!(waiting, quiet(Action::Wait { handle: 0 }));
    assert_eq!(executor.step(Event::Spawned), waiting);
    assert_eq!(executor.step(Event::SpawnFailed { cause: s("x") }), waiting);
    assert_eq!(executor.step(Event::Terminated), waiting);
    executor.step(exited(true));
    assert_eq!(executor.step(exited(true)), quiet(Action::Finish));
    assert_eq!(executor.step(exited(false)), quiet(Action::Finish));
    assert_eq!(executor.step(Event::Spawned), quiet(Action::Finish));
    assert_eq!(executor.phase(), Phase::Done);
}

#[test]
fn repeating_a_line_gives_the_same_outcome() {
    for line in [
        "ls",
        "cmdA | cmdB | cmdC",
        "cd /tmp",
        "ls | cd /tmp",
        "cd /tmp | ls",
        "| ls",
        "ls |",
        "ls || ls",
        "nonexistent_binary_xyz",
        "false | true",
    ] {
        let mut world = World::new();
        world.missing = vec!["nonexistent_binary_xyz"];
        world.failing = vec!["false"];
        let first = world.run(line);
        let mut again = World::new();
        again.missing = vec!["nonexistent_binary_xyz"];
        again.failing = vec!["false"];
        again.directory = world.directory.clone();
        let second = again.run(line);
        assert_eq!(first, second, "{}", line);
        assert_eq!(world.surviving(), 0);
        assert_eq!(again.surviving(), 0);
    }
}

#[test]
fn the_class_of_an_outcome_does_not_depend_on_causes() {
    let (mut one, _) = Executor::launch("a | nope");
    let (mut two, _) = Executor::launch("a | nope");
    assert_eq!(one.step(Event::Spawned), two.step(Event::Spawned));
    let first = one.step(Event::SpawnFailed { cause: s("not found") });
    let second = two.step(Event::SpawnFailed { cause: s("permission denied") });
    assert_eq!(first.action, second.action);
    assert_eq!(
        first.report,
        Some(Report::SpawnFailure { command: s("nope"), cause: s("not found") })
    );
    assert_eq!(
        second.report,
        Some(Report::SpawnFailure { command: s("nope"), cause: s("permission denied") })
    );
}

#[test]
fn every_run_ends_within_its_budget() {
    for line in ["a", "a | b | c | d", "a | | b", "cd", "cd x", "a | cd", "|||", "a b c | d e f"] {
        let stages = line.split('|').count();
        let (mut executor, mut step) = Executor::launch(line);
        let mut answers = 0;
        while step.action != Action::Finish {
            let event = match &step.action {
                Action::Spawn { .. } => Event::Spawned,
                Action::LookUpHome => Event::Home { directory: None },
                Action::ChangeDirectory { .. } => Event::DirectoryChanged,
                Action::Terminate { .. } => Event::Terminated,
                Action::Wait { .. } => exited(true),
                Action::Finish => unreachable!(),
            };
            step = executor.step(event);
            answers += 1;
            assert!(answers <= 2 * stages + 1, "{}", line);
        }
        assert_eq!(executor.phase(), Phase::Done);
    }
}
