//! The executor as a state machine over mathematical values: what it holds,
//! how an answer from its driver moves it, and what it asks for next.
use vstd::prelude::*;
use crate::report::ReportView;
use crate::lex::{lemma_pieces_nonempty, Separator};
use crate::stage::{pipeline, StageView};

verus! {

/// Where the executor stands, named by the action that it waits on.
#[derive(Clone, Copy, Debug, PartialEq, Eq, Structural)]
pub enum Phase {
    /// A program is being started.
    Spawning,
    /// The home directory is being looked up, for a `cd` without argument.
    ResolvingHome,
    /// The working directory is being changed.
    ChangingDirectory,
    /// The pipeline was given up and its children are being put down.
    Terminating,
    /// Every stage runs and the children are being waited for.
    Waiting,
    /// Nothing is left to do.
    Done,
}

/// What the driver answers after it has carried out an action.
pub enum EventView {
    /// The program runs.
    Spawned,
    /// The program could not be started.
    SpawnFailed { cause: Seq<char> },
    /// The home directory, if the environment names one.
    Home { directory: Option<Seq<char>> },
    /// The working directory is the target now.
    DirectoryChanged,
    /// The working directory is what it was.
    DirectoryChangeFailed { cause: Seq<char> },
    /// The child was killed and waited for, or was gone already.
    Terminated,
    /// The child has ended.
    Exited { success: bool, status: Seq<char> },
    /// The end of the child could not be observed.
    WaitFailed { cause: Seq<char> },
}

impl EventView {
    /// The answer without the texts that the system supplied: what came of
    /// the action, but not the cause, the status or the directory.
    pub open spec fn class(self) -> EventView {
        match self {
            EventView::SpawnFailed { .. } => EventView::SpawnFailed { cause: Seq::empty() },
            EventView::Home { .. } => EventView::Home { directory: None },
            EventView::DirectoryChangeFailed { .. } => EventView::DirectoryChangeFailed {
                cause: Seq::empty(),
            },
            EventView::Exited { success, .. } => EventView::Exited {
                success,
                status: Seq::empty(),
            },
            EventView::WaitFailed { .. } => EventView::WaitFailed { cause: Seq::empty() },
            _ => self,
        }
    }
}

/// What the executor asks its driver to do.
pub enum ActionView {
    /// Start the program of stage `stage`. With `input` the child reads what
    /// the child of that earlier stage writes, without it the shell's own
    /// input. With `piped` its output is kept for the stage after it, without
    /// it the child writes to the shell's own output.
    Spawn {
        stage: nat,
        program: Seq<char>,
        arguments: Seq<Seq<char>>,
        input: Option<nat>,
        piped: bool,
    },
    /// Look up the home directory.
    LookUpHome,
    /// Change the shell's working directory to `target`.
    ChangeDirectory { target: Seq<char> },
    /// Kill the child of stage `handle` and wait for it.
    Terminate { handle: nat },
    /// Wait for the child of stage `handle`.
    Wait { handle: nat },
    /// Return to the prompt.
    Finish,
}

impl ActionView {
    /// The action without the directory that it may name.
    pub open spec fn class(self) -> ActionView {
        match self {
            ActionView::ChangeDirectory { .. } => ActionView::ChangeDirectory {
                target: Seq::empty(),
            },
            _ => self,
        }
    }
}

/// The directory that `cd` falls back on when neither an argument nor the
/// environment names one.
pub open spec fn root_directory() -> Seq<char> {
    seq!['/']
}

/// All that an executor holds.
pub struct State {
    /// The stages of the line.
    pub stages: Seq<StageView>,
    /// The action that is awaited.
    pub phase: Phase,
    /// How many children were started: those of the stages before `spawned`.
    pub spawned: nat,
    /// How many of them were waited for or put down: those before `reaped`.
    pub reaped: nat,
    /// The stage whose output is held for the stage after it, if any.
    pub link: Option<nat>,
    /// The directory that `cd` is to change to, once it is known.
    pub target: Seq<char>,
}

impl State {
    /// The state as it is if a child is still owed a call, and else done.
    pub open spec fn settle(self) -> State {
        if self.reaped < self.spawned {
            self
        } else {
            State { phase: Phase::Done, ..self }
        }
    }

    /// Gives the pipeline up: the held output is let go and the children
    /// started so far are put down, the first of them first.
    pub open spec fn abort(self) -> State {
        State { phase: Phase::Terminating, link: None, ..self }.settle()
    }

    /// Turns to the stage after the ones that run. Past the last stage the
    /// children are waited for. An empty stage, and `cd` beside other stages,
    /// give the pipeline up. `cd` alone looks for its target; a program is
    /// started.
    pub open spec fn advance(self) -> (State, Option<ReportView>) {
        if self.spawned >= self.stages.len() {
            (State { phase: Phase::Waiting, ..self }.settle(), None)
        } else {
            match self.stages[self.spawned as int] {
                StageView::Empty => (self.abort(), Some(ReportView::EmptyStage)),
                StageView::ChangeDirectory { target } => {
                    if self.stages.len() > 1 {
                        (self.abort(), Some(ReportView::BuiltinInPipeline))
                    } else {
                        match target {
                            Some(t) => (
                                State { phase: Phase::ChangingDirectory, target: t, ..self },
                                None,
                            ),
                            None => (State { phase: Phase::ResolvingHome, ..self }, None),
                        }
                    }
                },
                StageView::External { .. } => (State { phase: Phase::Spawning, ..self }, None),
            }
        }
    }

    /// The name under which the child of stage `handle` is reported.
    pub open spec fn command(self, handle: nat) -> Seq<char> {
        self.stages[handle as int].name()
    }

    /// The state after one more child was waited for or put down.
    pub open spec fn reap(self) -> State {
        State { reaped: self.reaped + 1, ..self }.settle()
    }

    /// The state after the driver has answered `e`, and what is to be
    /// reported. An answer to another action than the awaited one changes
    /// nothing.
    pub open spec fn react(self, e: EventView) -> (State, Option<ReportView>) {
        match (self.phase, e) {
            (Phase::Spawning, EventView::Spawned) => State {
                spawned: self.spawned + 1,
                link: if self.spawned + 1 < self.stages.len() {
                    Some(self.spawned)
                } else {
                    None
                },
                ..self
            }.advance(),
            (Phase::Spawning, EventView::SpawnFailed { cause }) => (
                self.abort(),
                Some(ReportView::SpawnFailure { command: self.command(self.spawned), cause }),
            ),
            (Phase::ResolvingHome, EventView::Home { directory }) => (
                State {
                    phase: Phase::ChangingDirectory,
                    target: match directory {
                        Some(d) => d,
                        None => root_directory(),
                    },
                    ..self
                },
                None,
            ),
            (Phase::ChangingDirectory, EventView::DirectoryChanged) => (
                State { phase: Phase::Done, ..self },
                None,
            ),
            (Phase::ChangingDirectory, EventView::DirectoryChangeFailed { cause }) => (
                State { phase: Phase::Done, ..self },
                Some(ReportView::DirectoryChangeFailure { target: self.target, cause }),
            ),
            (Phase::Terminating, EventView::Terminated) => (self.reap(), None),
            (Phase::Waiting, EventView::Exited { success, status }) => (
                self.reap(),
                if success {
                    None
                } else {
                    Some(ReportView::NonZeroExit { command: self.command(self.reaped), status })
                },
            ),
            (Phase::Waiting, EventView::WaitFailed { cause }) => (
                self.reap(),
                Some(ReportView::WaitFailure { command: self.command(self.reaped), cause }),
            ),
            _ => (self, None),
        }
    }

    /// The state after the answers `events`, taken in order.
    pub open spec fn run(self, events: Seq<EventView>) -> State
        decreases events.len(),
    {
        if events.len() == 0 {
            self
        } else {
            self.run(events.drop_last()).react(events.last()).0
        }
    }

    /// What is reported in answer to `events`, in order.
    pub open spec fn reports(self, events: Seq<EventView>) -> Seq<ReportView>
        decreases events.len(),
    {
        if events.len() == 0 {
            Seq::empty()
        } else {
            let earlier = self.reports(events.drop_last());
            match self.run(events.drop_last()).react(events.last()).1 {
                Some(r) => earlier.push(r),
                None => earlier,
            }
        }
    }

    /// Whether two states differ in nothing but the directory that `cd` is
    /// to change to.
    pub open spec fn akin(self, other: State) -> bool {
        other == (State { target: other.target, ..self })
    }

    /// How many answers the executor can still take at most before it is
    /// done.
    pub open spec fn budget(self) -> nat {
        match self.phase {
            Phase::Spawning => (2 * self.stages.len() - self.spawned + 1) as nat,
            Phase::ResolvingHome => 2,
            Phase::ChangingDirectory => 1,
            Phase::Terminating => (self.spawned - self.reaped) as nat,
            Phase::Waiting => (self.spawned - self.reaped) as nat,
            Phase::Done => 0,
        }
    }

    /// Whether `e` answers the action that is awaited.
    pub open spec fn expects(self, e: EventView) -> bool {
        match self.phase {
            Phase::Spawning => e is Spawned || e is SpawnFailed,
            Phase::ResolvingHome => e is Home,
            Phase::ChangingDirectory => e is DirectoryChanged || e is DirectoryChangeFailed,
            Phase::Terminating => e is Terminated,
            Phase::Waiting => e is Exited || e is WaitFailed,
            Phase::Done => false,
        }
    }

    /// The action that is awaited.
    pub open spec fn pending(self) -> ActionView {
        match self.phase {
            Phase::Spawning => match self.stages[self.spawned as int] {
                StageView::External { program, arguments } => ActionView::Spawn {
                    stage: self.spawned,
                    program,
                    arguments,
                    input: self.link,
                    piped: self.spawned + 1 < self.stages.len(),
                },
                _ => ActionView::Finish,
            },
            Phase::ResolvingHome => ActionView::LookUpHome,
            Phase::ChangingDirectory => ActionView::ChangeDirectory { target: self.target },
            Phase::Terminating => ActionView::Terminate { handle: self.reaped },
            Phase::Waiting => ActionView::Wait { handle: self.reaped },
            Phase::Done => ActionView::Finish,
        }
    }

    /// What holds of every state that an executor can be in.
    pub open spec fn wf(self) -> bool {
        let n = self.stages.len();
        &&& n >= 1
        &&& self.reaped <= self.spawned <= n
        &&& forall|i: int| 0 <= i < self.spawned ==> #[trigger] self.stages[i] is External
        &&& match self.phase {
            Phase::Spawning => {
                &&& self.spawned < n
                &&& self.stages[self.spawned as int] is External
                &&& self.reaped == 0
                &&& self.link == if self.spawned > 0 {
                    Some((self.spawned - 1) as nat)
                } else {
                    None
                }
            },
            Phase::ResolvingHome => {
                &&& n == 1
                &&& self.spawned == 0
                &&& self.stages[0] == (StageView::ChangeDirectory { target: None })
                &&& self.link is None
            },
            Phase::ChangingDirectory => {
                &&& n == 1
                &&& self.spawned == 0
                &&& self.stages[0] is ChangeDirectory
                &&& self.link is None
            },
            Phase::Terminating => self.reaped < self.spawned && self.link is None,
            Phase::Waiting => self.reaped < self.spawned && self.spawned == n && self.link is None,
            Phase::Done => self.reaped == self.spawned && self.link is None,
        }
    }
}

impl State {
    /// What holds when the executor turns to its next stage: the stages
    /// before it run, none of their children was reaped, and the output of
    /// the last of them is held if a stage follows.
    pub open spec fn poised(self) -> bool {
        let n = self.stages.len();
        &&& n >= 1
        &&& self.reaped == 0
        &&& self.spawned <= n
        &&& forall|i: int| 0 <= i < self.spawned ==> #[trigger] self.stages[i] is External
        &&& self.link == if 0 < self.spawned < n {
            Some((self.spawned - 1) as nat)
        } else {
            None
        }
    }

    /// Turning to the next stage leads to a well-formed state.
    pub proof fn lemma_advance_wf(self)
        requires
            self.poised(),
        ensures
            self.advance().0.wf(),
    {
    }

    /// No answer leads out of the well-formed states.
    pub proof fn lemma_react_wf(self, e: EventView)
        requires
            self.wf(),
        ensures
            self.react(e).0.wf(),
    {
        if self.phase == Phase::Spawning && e is Spawned {
            let next = State {
                spawned: self.spawned + 1,
                link: if self.spawned + 1 < self.stages.len() {
                    Some(self.spawned)
                } else {
                    None
                },
                ..self
            };
            assert(next.poised());
            next.lemma_advance_wf();
        }
    }
}

/// A line has at least one stage.
pub proof fn lemma_pipeline_nonempty(line: Seq<char>)
    ensures
        pipeline(line).len() >= 1,
{
    lemma_pieces_nonempty(line, Separator::Pipe);
}

/// An executor starts in a well-formed state.
pub proof fn lemma_initial_wf(line: Seq<char>)
    ensures
        initial(line).0.wf(),
{
    lemma_pipeline_nonempty(line);
    fresh(pipeline(line)).lemma_advance_wf();
}

/// The state before the first stage of a pipeline is looked at.
pub open spec fn fresh(stages: Seq<StageView>) -> State {
    State {
        stages,
        phase: Phase::Spawning,
        spawned: 0,
        reaped: 0,
        link: None,
        target: Seq::empty(),
    }
}

/// The state in which the executor of `line` awaits its first answer, and
/// what it reports on the way there.
pub open spec fn initial(line: Seq<char>) -> (State, Option<ReportView>) {
    fresh(pipeline(line)).advance()
}

/// All that is reported for `line` when the driver answers `events`: what
/// the first look at the line raises, then what the answers raise.
pub open spec fn told(line: Seq<char>, events: Seq<EventView>) -> Seq<ReportView> {
    match initial(line).1 {
        Some(r) => seq![r] + initial(line).0.reports(events),
        None => initial(line).0.reports(events),
    }
}

} // verus!
