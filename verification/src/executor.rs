//! The executor: it holds the stages of one line and tells its driver, step
//! by step, what to do with them.
use vstd::prelude::*;
use crate::machine::{
    fresh, initial, lemma_pipeline_nonempty, root_directory, ActionView, EventView, Phase, State,
};
use crate::report::{report_view, Report};
use crate::stage::{parse_pipeline, pipeline, stage_views, Stage};
use crate::text::string_views;

verus! {

/// Where a child reads from.
#[derive(Clone, Copy, Debug, PartialEq, Eq)]
pub enum Input {
    /// The shell's own input.
    Inherited,
    /// What the child of stage `from` writes. That output is handed over:
    /// no other child reads it.
    Piped { from: usize },
}

impl View for Input {
    type V = Option<nat>;

    open spec fn view(&self) -> Option<nat> {
        match self {
            Input::Inherited => None,
            Input::Piped { from } => Some(*from as nat),
        }
    }
}

/// Where a child writes to.
#[derive(Clone, Copy, Debug, PartialEq, Eq)]
pub enum Output {
    /// The shell's own output.
    Inherited,
    /// A pipe, held for the stage that follows.
    Piped,
}

impl Output {
    /// Whether the output is kept for the stage that follows.
    pub open spec fn piped(self) -> bool {
        self is Piped
    }
}

/// What the executor asks its driver to do.
#[derive(Clone, Debug, PartialEq, Eq)]
pub enum Action {
    /// Start the program of stage `stage` with these arguments.
    Spawn { stage: usize, program: String, arguments: Vec<String>, input: Input, output: Output },
    /// Look up the home directory and answer with [`Event::Home`].
    LookUpHome,
    /// Change the shell's working directory to `target`.
    ChangeDirectory { target: String },
    /// Kill the child of stage `handle` and wait for it, whatever comes of
    /// either.
    Terminate { handle: usize },
    /// Wait for the child of stage `handle`.
    Wait { handle: usize },
    /// Return to the prompt: nothing is left to do for this line.
    Finish,
}

impl View for Action {
    type V = ActionView;

    open spec fn view(&self) -> ActionView {
        match self {
            Action::Spawn { stage, program, arguments, input, output } => ActionView::Spawn {
                stage: *stage as nat,
                program: program@,
                arguments: string_views(arguments@),
                input: input@,
                piped: output.piped(),
            },
            Action::LookUpHome => ActionView::LookUpHome,
            Action::ChangeDirectory { target } => ActionView::ChangeDirectory { target: target@ },
            Action::Terminate { handle } => ActionView::Terminate { handle: *handle as nat },
            Action::Wait { handle } => ActionView::Wait { handle: *handle as nat },
            Action::Finish => ActionView::Finish,
        }
    }
}

/// What the driver answers after it has carried out an action.
#[derive(Clone, Debug, PartialEq, Eq)]
pub enum Event {
    /// The program runs.
    Spawned,
    /// The program could not be started; `cause` says why.
    SpawnFailed { cause: String },
    /// The home directory, if the environment names one.
    Home { directory: Option<String> },
    /// The working directory is the target now.
    DirectoryChanged,
    /// The working directory is what it was; `cause` says why.
    DirectoryChangeFailed { cause: String },
    /// The child was killed and waited for, or was gone already.
    Terminated,
    /// The child has ended, with success or not; `status` describes how.
    Exited { success: bool, status: String },
    /// The end of the child could not be observed; `cause` says why.
    WaitFailed { cause: String },
}

impl View for Event {
    type V = EventView;

    open spec fn view(&self) -> EventView {
        match self {
            Event::Spawned => EventView::Spawned,
            Event::SpawnFailed { cause } => EventView::SpawnFailed { cause: cause@ },
            Event::Home { directory } => EventView::Home {
                directory: match directory {
                    Some(d) => Some(d@),
                    None => None,
                },
            },
            Event::DirectoryChanged => EventView::DirectoryChanged,
            Event::DirectoryChangeFailed { cause } => EventView::DirectoryChangeFailed {
                cause: cause@,
            },
            Event::Terminated => EventView::Terminated,
            Event::Exited { success, status } => EventView::Exited {
                success: *success,
                status: status@,
            },
            Event::WaitFailed { cause } => EventView::WaitFailed { cause: cause@ },
        }
    }
}

/// One step of the executor: what to tell the user, if anything, and what to
/// do after that.
#[derive(Clone, Debug, PartialEq, Eq)]
pub struct Step {
    pub report: Option<Report>,
    pub action: Action,
}

/// How far the executor has come.
#[derive(Clone, Copy)]
struct Progress {
    phase: Phase,
    spawned: usize,
    reaped: usize,
    link: Option<usize>,
}

/// The state made of its three parts.
spec fn state_of(stages: Seq<Stage>, progress: Progress, target: Seq<char>) -> State {
    State {
        stages: stage_views(stages),
        phase: progress.phase,
        spawned: progress.spawned as nat,
        reaped: progress.reaped as nat,
        link: match progress.link {
            Some(h) => Some(h as nat),
            None => None,
        },
        target,
    }
}

/// A copy of `v`.
fn clone_strings(v: &Vec<String>) -> (r: Vec<String>)
    ensures
        string_views(r@) == string_views(v@),
{
    let mut r: Vec<String> = Vec::new();
    let mut i: usize = 0;
    while i < v.len()
        invariant
            i <= v.len(),
            r.len() == i,
            forall|j: int| 0 <= j < i ==> (#[trigger] r@[j])@ == v@[j]@,
        decreases v.len() - i,
    {
        r.push(v[i].clone());
        i = i + 1;
    }
    proof {
        assert(string_views(r@) =~= string_views(v@));
    }
    r
}

/// `p` as it is if a child is still owed a call, and else done.
fn settle(p: Progress) -> (r: Progress)
    ensures
        forall|stages: Seq<Stage>, target: Seq<char>|
            #[trigger] state_of(stages, r, target) == state_of(stages, p, target).settle(),
{
    if p.reaped < p.spawned {
        p
    } else {
        Progress { phase: Phase::Done, ..p }
    }
}

/// `p` after the pipeline was given up.
fn abort(p: Progress) -> (r: Progress)
    ensures
        forall|stages: Seq<Stage>, target: Seq<char>|
            #[trigger] state_of(stages, r, target) == state_of(stages, p, target).abort(),
{
    settle(Progress { phase: Phase::Terminating, link: None, ..p })
}

/// `p` after one more child was waited for or put down.
fn reap(p: Progress) -> (r: Progress)
    requires
        p.reaped < p.spawned,
    ensures
        forall|stages: Seq<Stage>, target: Seq<char>|
            #[trigger] state_of(stages, r, target) == state_of(stages, p, target).reap(),
{
    settle(Progress { reaped: p.reaped + 1, ..p })
}

/// The target as it is after a step that may have set it anew.
spec fn target_after(set: Option<String>, target: Seq<char>) -> Seq<char> {
    match set {
        Some(t) => t@,
        None => target,
    }
}

/// Turns to the stage after the ones that run: how far the executor has come
/// after that, the directory that `cd` is to change to if the stage names
/// one, and what is to be reported.
fn advance(stages: &Vec<Stage>, p: Progress) -> (r: (Progress, Option<String>, Option<Report>))
    ensures
        forall|target: Seq<char>| #[trigger]
            state_of(stages@, r.0, target_after(r.1, target)) == state_of(
                stages@,
                p,
                target,
            ).advance().0,
        forall|target: Seq<char>|
            report_view(r.2) == (#[trigger] state_of(stages@, p, target)).advance().1,
{
    assert(stage_views(stages@).len() == stages@.len());
    if p.spawned >= stages.len() {
        (settle(Progress { phase: Phase::Waiting, ..p }), None, None)
    } else {
        assert(stage_views(stages@)[p.spawned as int] == stages@[p.spawned as int]@);
        match &stages[p.spawned] {
            Stage::Empty => (abort(p), None, Some(Report::EmptyStage)),
            Stage::ChangeDirectory { target: wanted } => {
                if stages.len() > 1 {
                    (abort(p), None, Some(Report::BuiltinInPipeline))
                } else {
                    match wanted {
                        Some(t) => (
                            Progress { phase: Phase::ChangingDirectory, ..p },
                            Some(t.clone()),
                            None,
                        ),
                        None => (Progress { phase: Phase::ResolvingHome, ..p }, None, None),
                    }
                }
            },
            Stage::External { .. } => (Progress { phase: Phase::Spawning, ..p }, None, None),
        }
    }
}

/// The executor of one line.
pub struct Executor {
    stages: Vec<Stage>,
    progress: Progress,
    target: String,
}

impl View for Executor {
    type V = State;

    closed spec fn view(&self) -> State {
        state_of(self.stages@, self.progress, self.target@)
    }
}

impl Executor {
    #[verifier::type_invariant]
    spec fn well_formed(&self) -> bool {
        self@.wf()
    }

    /// Reads `line` as a pipeline and takes the first step on it.
    pub fn launch(line: &str) -> (r: (Executor, Step))
        ensures
            r.0@ == initial(line@).0,
            r.0@.wf(),
            report_view(r.1.report) == initial(line@).1,
            r.1.action@ == r.0@.pending(),
    {
        let stages = parse_pipeline(line);
        let start = Progress { phase: Phase::Spawning, spawned: 0, reaped: 0, link: None };
        let (progress, set, report) = advance(&stages, start);
        let target = match set {
            Some(t) => t,
            None => String::new(),
        };
        proof {
            lemma_pipeline_nonempty(line@);
            assert(state_of(stages@, start, Seq::empty()) == fresh(pipeline(line@)));
            assert(target@ == target_after(set, Seq::empty()));
            fresh(pipeline(line@)).lemma_advance_wf();
        }
        let executor = Executor { stages, progress, target };
        let action = executor.pending();
        (executor, Step { report, action })
    }

    /// The action that the executor waits on.
    pub fn pending(&self) -> (action: Action)
        ensures
            self@.wf(),
            action@ == self@.pending(),
    {
        proof {
            use_type_invariant(self);
        }
        let p = self.progress;
        let count = self.stages.len();
        assert(stage_views(self.stages@).len() == count);
        match p.phase {
            Phase::Spawning => {
                assert(stage_views(self.stages@)[p.spawned as int]
                    == self.stages@[p.spawned as int]@);
                match &self.stages[p.spawned] {
                    Stage::External { program, arguments } => Action::Spawn {
                        stage: p.spawned,
                        program: program.clone(),
                        arguments: clone_strings(arguments),
                        input: match p.link {
                            Some(from) => Input::Piped { from },
                            None => Input::Inherited,
                        },
                        output: if p.spawned + 1 < count {
                            Output::Piped
                        } else {
                            Output::Inherited
                        },
                    },
                    _ => Action::Finish,
                }
            },
            Phase::ResolvingHome => Action::LookUpHome,
            Phase::ChangingDirectory => Action::ChangeDirectory { target: self.target.clone() },
            Phase::Terminating => Action::Terminate { handle: p.reaped },
            Phase::Waiting => Action::Wait { handle: p.reaped },
            Phase::Done => Action::Finish,
        }
    }

    /// Where the executor stands.
    pub fn phase(&self) -> (phase: Phase)
        ensures
            phase == self@.phase,
    {
        self.progress.phase
    }

    /// Takes the driver's answer to the pending action and decides what
    /// comes next. An answer to another action is passed over: nothing
    /// changes, nothing is reported, and the pending action is asked for
    /// again.
    pub fn step(&mut self, event: Event) -> (step: Step)
        ensures
            old(self)@.wf(),
            final(self)@.wf(),
            final(self)@ == old(self)@.react(event@).0,
            report_view(step.report) == old(self)@.react(event@).1,
            step.action@ == final(self)@.pending(),
    {
        proof {
            use_type_invariant(&*self);
            self@.lemma_react_wf(event@);
        }
        let p = self.progress;
        let ghost before = self@;
        let mut report: Option<Report> = None;
        let count = self.stages.len();
        assert(stage_views(self.stages@).len() == count);
        match p.phase {
            Phase::Spawning => {
                match event {
                    Event::Spawned => {
                        let next = Progress {
                            spawned: p.spawned + 1,
                            link: if p.spawned + 1 < count {
                                Some(p.spawned)
                            } else {
                                None
                            },
                            ..p
                        };
                        let (q, set, r) = advance(&self.stages, next);
                        report = r;
                        assert(state_of(self.stages@, q, target_after(set, self.target@))
                            == before.react(event@).0);
                        if let Some(t) = set {
                            self.target = t;
                        }
                        self.progress = q;
                    },
                    Event::SpawnFailed { cause } => {
                        assert(stage_views(self.stages@)[p.spawned as int]
                            == self.stages@[p.spawned as int]@);
                        report = Some(
                            Report::SpawnFailure { command: self.stages[p.spawned].name(), cause },
                        );
                        self.progress = abort(p);
                    },
                    _ => {},
                }
            },
            Phase::ResolvingHome => {
                match event {
                    Event::Home { directory } => {
                        proof {
                            reveal_strlit("/");
                            assert("/"@ =~= root_directory());
                        }
                        self.target = match directory {
                            Some(d) => d,
                            None => "/".to_owned(),
                        };
                        self.progress = Progress { phase: Phase::ChangingDirectory, ..p };
                    },
                    _ => {},
                }
            },
            Phase::ChangingDirectory => {
                match event {
                    Event::DirectoryChanged => {
                        self.progress = Progress { phase: Phase::Done, ..p };
                    },
                    Event::DirectoryChangeFailed { cause } => {
                        report = Some(
                            Report::DirectoryChangeFailure { target: self.target.clone(), cause },
                        );
                        self.progress = Progress { phase: Phase::Done, ..p };
                    },
                    _ => {},
                }
            },
            Phase::Terminating => {
                match event {
                    Event::Terminated => {
                        self.progress = reap(p);
                    },
                    _ => {},
                }
            },
            Phase::Waiting => {
                match event {
                    Event::Exited { success, status } => {
                        if !success {
                            assert(stage_views(self.stages@)[p.reaped as int]
                                == self.stages@[p.reaped as int]@);
                            report = Some(
                                Report::NonZeroExit {
                                    command: self.stages[p.reaped].name(),
                                    status,
                                },
                            );
                        }
                        self.progress = reap(p);
                    },
                    Event::WaitFailed { cause } => {
                        assert(stage_views(self.stages@)[p.reaped as int]
                            == self.stages@[p.reaped as int]@);
                        report = Some(
                            Report::WaitFailure { command: self.stages[p.reaped].name(), cause },
                        );
                        self.progress = reap(p);
                    },
                    _ => {},
                }
            },
            Phase::Done => {},
        }
        let action = self.pending();
        Step { report, action }
    }
}

} // verus!
