//! What holds of every run of the executor.
use vstd::prelude::*;
use crate::lex::{segments, trimmed, words, Separator};
use crate::lex_proofs::{free_of, lemma_pieces_without_separator};
use crate::machine::{
    initial, lemma_initial_wf, lemma_pipeline_nonempty, root_directory, told, ActionView,
    EventView, Phase, State,
};
use crate::report::ReportView;
use crate::stage::{pipeline, stage_of, StageView};

verus! {

/// An executor stays well-formed whatever it is answered.
pub proof fn lemma_run_wf(s: State, events: Seq<EventView>)
    requires
        s.wf(),
    ensures
        s.run(events).wf(),
    decreases events.len(),
{
    if events.len() > 0 {
        lemma_run_wf(s, events.drop_last());
        s.run(events.drop_last()).lemma_react_wf(events.last());
    }
}

/// An answer to another action than the awaited one changes nothing and
/// raises no report.
pub proof fn lemma_unexpected_answer(s: State, e: EventView)
    requires
        !s.expects(e),
    ensures
        s.react(e) == (s, None::<ReportView>),
{
}

/// Every awaited answer brings the executor closer to its end, and it is at
/// its end exactly when nothing is left of its budget. So a driver that
/// always answers the pending action returns to the prompt after at most
/// `budget` answers.
pub proof fn lemma_progress(s: State, e: EventView)
    requires
        s.wf(),
        s.expects(e),
    ensures
        s.react(e).0.budget() < s.budget(),
        s.budget() == 0 <==> s.phase is Done,
        s.phase is Done <==> s.pending() is Finish,
{
}

/// When nothing is left to do, every child that was started has been waited
/// for or put down: none is left behind.
pub proof fn lemma_done_leaves_no_child(line: Seq<char>, events: Seq<EventView>)
    ensures
        ({
            let end = initial(line).0.run(events);
            end.phase is Done ==> end.reaped == end.spawned
        }),
{
    lemma_initial_wf(line);
    lemma_run_wf(initial(line).0, events);
}

/// How a program is wired when it is started. It is the stage after the ones
/// that run; it reads what the stage before it writes, and the first stage
/// reads the shell's input; its output is kept for the stage after it, and
/// the last stage writes to the shell's output. No child has been waited for
/// yet.
pub proof fn lemma_spawn_wiring(s: State)
    requires
        s.wf(),
        s.pending() is Spawn,
    ensures
        s.pending() matches ActionView::Spawn { stage, program, arguments, input, piped } && {
            &&& stage == s.spawned
            &&& stage < s.stages.len()
            &&& s.stages[stage as int] == (StageView::External { program, arguments })
            &&& input == if stage > 0 {
                Some((stage - 1) as nat)
            } else {
                None
            }
            &&& piped == (stage + 1 < s.stages.len())
            &&& s.reaped == 0
        },
{
}

/// The stages are started from left to right. Once a program runs, the
/// executor turns to the stage after it: it starts that stage if it is a
/// program, waits for the first child if no stage is left, and gives the
/// pipeline up otherwise, putting the first child down.
pub proof fn lemma_spawn_order(s: State)
    requires
        s.wf(),
        s.phase is Spawning,
    ensures
        ({
            let (next, report) = s.react(EventView::Spawned);
            let i = (s.spawned + 1) as int;
            if i == s.stages.len() {
                report is None && next.pending() == (ActionView::Wait { handle: 0 })
            } else {
                match s.stages[i] {
                    StageView::External { program, arguments } => report is None && next.pending()
                        == (ActionView::Spawn {
                        stage: i as nat,
                        program,
                        arguments,
                        input: Some(s.spawned),
                        piped: i + 1 < s.stages.len(),
                    }),
                    StageView::Empty => report == Some(ReportView::EmptyStage) && next.pending()
                        == (ActionView::Terminate { handle: 0 }),
                    StageView::ChangeDirectory { .. } => report == Some(
                        ReportView::BuiltinInPipeline,
                    ) && next.pending() == (ActionView::Terminate { handle: 0 }),
                }
            }
        }),
{
}

/// A program that cannot be started ends the pipeline: the failure is
/// reported under the program's name, and the children started before it
/// are put down, the first of them first.
pub proof fn lemma_spawn_failure(s: State, cause: Seq<char>)
    requires
        s.wf(),
        s.phase is Spawning,
    ensures
        ({
            let (next, report) = s.react(EventView::SpawnFailed { cause });
            &&& s.stages[s.spawned as int] matches StageView::External { program, .. }
            &&& report == Some(ReportView::SpawnFailure { command: program, cause })
            &&& next.spawned == s.spawned
            &&& next.pending() == if s.spawned > 0 {
                ActionView::Terminate { handle: 0 }
            } else {
                ActionView::Finish
            }
        }),
{
}

/// The children are waited for in the order in which they were started,
/// whatever becomes of each: a child that fails, or whose end cannot be
/// observed, is reported under its program's name, and the wait goes on with
/// the child after it.
pub proof fn lemma_wait_order(s: State, e: EventView)
    requires
        s.wf(),
        s.phase is Waiting,
        e is Exited || e is WaitFailed,
    ensures
        ({
            let (next, report) = s.react(e);
            &&& s.spawned == s.stages.len()
            &&& s.pending() == (ActionView::Wait { handle: s.reaped })
            &&& s.stages[s.reaped as int] matches StageView::External { program, .. }
            &&& report == match e {
                EventView::Exited { success, status } => if success {
                    None
                } else {
                    Some(ReportView::NonZeroExit { command: program, status })
                },
                EventView::WaitFailed { cause } => Some(
                    ReportView::WaitFailure { command: program, cause },
                ),
                _ => None,
            }
            &&& next.pending() == if s.reaped + 1 < s.spawned {
                ActionView::Wait { handle: s.reaped + 1 }
            } else {
                ActionView::Finish
            }
        }),
{
}

/// What the end `e` of the child that runs `command` is reported as, if it
/// is reported at all: a child that succeeds is passed over in silence.
pub open spec fn exit_report(command: Seq<char>, e: EventView) -> Option<ReportView> {
    match e {
        EventView::Exited { success, status } => if success {
            None
        } else {
            Some(ReportView::NonZeroExit { command, status })
        },
        EventView::WaitFailed { cause } => Some(ReportView::WaitFailure { command, cause }),
        _ => None,
    }
}

/// What is reported when the children of the first stages of `stages` end
/// as `ends` says, one after the other.
pub open spec fn exit_reports(stages: Seq<StageView>, ends: Seq<EventView>) -> Seq<ReportView>
    decreases ends.len(),
{
    if ends.len() == 0 {
        Seq::empty()
    } else {
        let earlier = exit_reports(stages, ends.drop_last());
        match exit_report(stages[ends.len() - 1].name(), ends.last()) {
            Some(r) => earlier.push(r),
            None => earlier,
        }
    }
}

/// Whether every answer in `ends` tells of the end of a child.
pub open spec fn all_ends(ends: Seq<EventView>) -> bool {
    forall|i: int| 0 <= i < ends.len() ==> #[trigger] ends[i] is Exited || ends[i] is WaitFailed
}

/// Answers taken one after the other lead where the first of them, then the
/// rest lead, and raise the same reports.
pub proof fn lemma_run_in_two(s: State, a: Seq<EventView>, b: Seq<EventView>)
    ensures
        s.run(a + b) == s.run(a).run(b),
        s.reports(a + b) == s.reports(a) + s.run(a).reports(b),
    decreases b.len(),
{
    if b.len() == 0 {
        assert(a + b =~= a);
        assert(s.reports(a) + s.run(a).reports(b) =~= s.reports(a));
    } else {
        lemma_run_in_two(s, a, b.drop_last());
        assert((a + b).drop_last() =~= a + b.drop_last());
        assert((a + b).last() == b.last());
        let before = s.run(a).run(b.drop_last());
        match before.react(b.last()).1 {
            Some(r) => {
                assert(s.reports(a + b) =~= s.reports(a) + s.run(a).reports(b));
            },
            None => {},
        }
    }
}

/// Once every stage runs, the children are waited for from the first to the
/// last. After the ends of the first of them, those children are reaped,
/// what was reported is what their ends call for, and the executor waits
/// for the child after them, or is done if there is none.
pub proof fn lemma_waited_in_order(s: State, ends: Seq<EventView>)
    requires
        s.wf(),
        s.phase is Waiting,
        s.reaped == 0,
        ends.len() <= s.spawned,
        all_ends(ends),
    ensures
        s.run(ends).stages == s.stages,
        s.run(ends).spawned == s.spawned,
        s.run(ends).reaped == ends.len(),
        s.reports(ends) == exit_reports(s.stages, ends),
        s.run(ends).pending() == if ends.len() < s.spawned {
            ActionView::Wait { handle: ends.len() }
        } else {
            ActionView::Finish
        },
    decreases ends.len(),
{
    if ends.len() > 0 {
        let earlier = ends.drop_last();
        assert(all_ends(earlier)) by {
            assert forall|i: int| 0 <= i < earlier.len() implies #[trigger] earlier[i] is Exited
                || earlier[i] is WaitFailed by {
                assert(ends[i] is Exited || ends[i] is WaitFailed);
            }
        }
        lemma_waited_in_order(s, earlier);
        lemma_run_wf(s, earlier);
        assert(ends[ends.len() - 1] is Exited || ends[ends.len() - 1] is WaitFailed);
        lemma_wait_order(s.run(earlier), ends.last());
    }
}

/// The whole run of a line whose stages are all programs that can be
/// started. Every program is started, from left to right; then every child
/// is waited for, from left to right; and exactly the children that did not
/// succeed, or whose end could not be observed, are reported, in that
/// order. In the end no child is left.
pub proof fn lemma_clean_run(line: Seq<char>, ends: Seq<EventView>)
    requires
        forall|i: int| 0 <= i < pipeline(line).len() ==> #[trigger] pipeline(line)[i] is External,
        ends.len() == pipeline(line).len(),
        all_ends(ends),
    ensures
        ({
            let answers = all_spawned(pipeline(line).len()) + ends;
            let end = initial(line).0.run(answers);
            &&& told(line, answers) == exit_reports(pipeline(line), ends)
            &&& end.pending() is Finish
            &&& end.spawned == pipeline(line).len()
            &&& end.reaped == end.spawned
        }),
{
    let n = pipeline(line).len();
    let start = initial(line).0;
    lemma_initial_wf(line);
    lemma_started_in_order(line, n);
    lemma_run_wf(start, all_spawned(n));
    lemma_run_in_two(start, all_spawned(n), ends);
    lemma_waited_in_order(start.run(all_spawned(n)), ends);
    assert(start.reports(all_spawned(n)) =~= Seq::<ReportView>::empty());
    assert(told(line, all_spawned(n) + ends) =~= exit_reports(pipeline(line), ends));
}

/// The children of a pipeline that was given up are put down in the order
/// in which they were started.
pub proof fn lemma_terminate_order(s: State)
    requires
        s.wf(),
        s.phase is Terminating,
    ensures
        ({
            let (next, report) = s.react(EventView::Terminated);
            &&& s.pending() == (ActionView::Terminate { handle: s.reaped })
            &&& report is None
            &&& next.pending() == if s.reaped + 1 < s.spawned {
                ActionView::Terminate { handle: s.reaped + 1 }
            } else {
                ActionView::Finish
            }
        }),
{
}

/// `count` times the answer that a child was put down.
pub open spec fn all_terminated(count: nat) -> Seq<EventView> {
    Seq::new(count, |i: int| EventView::Terminated)
}

/// Once the pipeline was given up, the children are put down from the first
/// to the last, and nothing more is reported. After `count` of them the
/// executor asks for the child after them, or is done if there is none.
pub proof fn lemma_put_down_in_order(s: State, count: nat)
    requires
        s.wf(),
        closed_down(s),
        s.reaped == 0,
        count <= s.spawned,
    ensures
        s.run(all_terminated(count)).spawned == s.spawned,
        s.run(all_terminated(count)).reaped == count,
        s.reports(all_terminated(count)) == Seq::<ReportView>::empty(),
        s.run(all_terminated(count)).pending() == if count < s.spawned {
            ActionView::Terminate { handle: count }
        } else {
            ActionView::Finish
        },
    decreases count,
{
    if count == 0 {
        assert(all_terminated(0) =~= Seq::<EventView>::empty());
    } else {
        let earlier = all_terminated((count - 1) as nat);
        lemma_put_down_in_order(s, (count - 1) as nat);
        lemma_run_wf(s, earlier);
        assert(all_terminated(count).drop_last() =~= earlier);
        assert(all_terminated(count).last() == EventView::Terminated);
        lemma_terminate_order(s.run(earlier));
    }
}

/// The whole run of a line in which something stands in the way of a stage
/// while every program before it can be started. The programs before it are
/// started, the obstacle is the one report, the children are put down, and
/// in the end no child is left. Nothing after the obstacle is started.
pub proof fn lemma_given_up_run(line: Seq<char>, count: nat)
    requires
        count < pipeline(line).len(),
        forall|i: int| 0 <= i < count ==> #[trigger] pipeline(line)[i] is External,
        obstacle(pipeline(line), count as int) is Some,
    ensures
        ({
            let answers = all_spawned(count) + all_terminated(count);
            let end = initial(line).0.run(answers);
            &&& told(line, answers) == seq![obstacle(pipeline(line), count as int)->0]
            &&& end.pending() is Finish
            &&& end.spawned == count
            &&& end.reaped == count
        }),
{
    let start = initial(line).0;
    let s = start.run(all_spawned(count));
    lemma_initial_wf(line);
    lemma_started_in_order(line, count);
    lemma_run_wf(start, all_spawned(count));
    lemma_run_in_two(start, all_spawned(count), all_terminated(count));
    lemma_put_down_in_order(s, count);
    let answers = all_spawned(count) + all_terminated(count);
    assert(start.reports(answers) =~= start.reports(all_spawned(count)));
}

/// The whole run of a line in which a program cannot be started while every
/// program before it can. The programs before it are started, the failure is
/// the one report and names the program, the children are put down, and in
/// the end no child is left. Nothing after that program is started.
pub proof fn lemma_failed_start_run(line: Seq<char>, count: nat, cause: Seq<char>)
    requires
        count < pipeline(line).len(),
        forall|i: int| 0 <= i <= count ==> #[trigger] pipeline(line)[i] is External,
    ensures
        ({
            let failure = EventView::SpawnFailed { cause };
            let answers = all_spawned(count).push(failure) + all_terminated(count);
            let end = initial(line).0.run(answers);
            &&& told(line, answers) == seq![
                ReportView::SpawnFailure { command: pipeline(line)[count as int]->program, cause },
            ]
            &&& end.pending() is Finish
            &&& end.spawned == count
            &&& end.reaped == count
        }),
{
    let start = initial(line).0;
    let failure = EventView::SpawnFailed { cause };
    let first = all_spawned(count).push(failure);
    lemma_initial_wf(line);
    lemma_started_in_order(line, count);
    lemma_run_wf(start, all_spawned(count));
    let s = start.run(all_spawned(count));
    lemma_spawn_failure(s, cause);
    assert(first.drop_last() =~= all_spawned(count));
    assert(first.last() == failure);
    assert(start.run(first) == s.react(failure).0);
    lemma_run_wf(start, first);
    lemma_run_in_two(start, first, all_terminated(count));
    lemma_put_down_in_order(start.run(first), count);
    assert(start.reports(all_spawned(count)) =~= Seq::<ReportView>::empty());
    assert(start.reports(first) =~= seq![
        ReportView::SpawnFailure { command: pipeline(line)[count as int]->program, cause },
    ]);
    assert(start.reports(first + all_terminated(count)) =~= start.reports(first));
}

/// The builtin runs only in a line of its own: when the working directory
/// is changed, or the home directory looked up, the line has one stage and
/// no child was started for it.
pub proof fn lemma_builtin_runs_alone(s: State)
    requires
        s.wf(),
        s.pending() is ChangeDirectory || s.pending() is LookUpHome,
    ensures
        s.stages.len() == 1,
        s.stages[0] is ChangeDirectory,
        s.spawned == 0,
{
}

/// How the target of `cd` is found: it is the first argument if there is
/// one, else the home directory if the environment names one, else the root
/// directory.
pub proof fn lemma_directory_target(line: Seq<char>, directory: Option<Seq<char>>)
    requires
        pipeline(line).len() == 1,
        pipeline(line)[0] is ChangeDirectory,
    ensures
        initial(line).1 is None,
        match pipeline(line)[0]->target {
            Some(t) => initial(line).0.pending() == (ActionView::ChangeDirectory { target: t }),
            None => {
                &&& initial(line).0.pending() == ActionView::LookUpHome
                &&& initial(line).0.react(EventView::Home { directory }).0.pending() == (
                ActionView::ChangeDirectory {
                    target: match directory {
                        Some(d) => d,
                        None => root_directory(),
                    },
                })
            },
        },
{
}

/// A line that is the builtin alone starts no child, whatever the executor
/// is answered: it never asks for a program to be started, nor for a child
/// to be waited for or put down.
pub proof fn lemma_builtin_starts_no_child(line: Seq<char>, events: Seq<EventView>)
    requires
        pipeline(line).len() == 1,
        pipeline(line)[0] is ChangeDirectory,
    ensures
        ({
            let s = initial(line).0.run(events);
            &&& s.spawned == 0
            &&& s.phase is ResolvingHome || s.phase is ChangingDirectory || s.phase is Done
            &&& !(s.pending() is Spawn) && !(s.pending() is Wait) && !(s.pending() is Terminate)
        }),
    decreases events.len(),
{
    if events.len() > 0 {
        lemma_builtin_starts_no_child(line, events.drop_last());
    }
}

/// `count` times the answer that a program runs.
pub open spec fn all_spawned(count: nat) -> Seq<EventView> {
    Seq::new(count, |i: int| EventView::Spawned)
}

/// What stands in the way of the stage at `index`, if anything: a stage
/// without a command, or the builtin in a line of several stages.
pub open spec fn obstacle(stages: Seq<StageView>, index: int) -> Option<ReportView> {
    match stages[index] {
        StageView::Empty => Some(ReportView::EmptyStage),
        StageView::ChangeDirectory { .. } => if stages.len() > 1 {
            Some(ReportView::BuiltinInPipeline)
        } else {
            None
        },
        StageView::External { .. } => None,
    }
}

/// How a line is started when every program can be. Let the first `count`
/// stages be programs, and let each of them run. Then the stages are those
/// of the line still, `count` children run and none was reaped. If no stage
/// is left, the first child is waited for and nothing was reported. If the
/// stage after them is a program, it is started next and nothing was
/// reported. If something stands in its way, that is the one report, and the
/// children are put down, the first of them first; without children the
/// executor is done at once. What is left is the builtin in a line of its
/// own, which starts nothing.
pub proof fn lemma_started_in_order(line: Seq<char>, count: nat)
    requires
        count <= pipeline(line).len(),
        forall|i: int| 0 <= i < count ==> #[trigger] pipeline(line)[i] is External,
    ensures
        ({
            let stages = pipeline(line);
            let s = initial(line).0.run(all_spawned(count));
            let told = told(line, all_spawned(count));
            &&& s.stages == stages
            &&& s.spawned == count
            &&& s.reaped == 0
            &&& if count == stages.len() {
                told == Seq::<ReportView>::empty() && s.pending() == (ActionView::Wait {
                    handle: 0,
                })
            } else {
                match obstacle(stages, count as int) {
                    Some(r) => told == seq![r] && s.pending() == if count > 0 {
                        ActionView::Terminate { handle: 0 }
                    } else {
                        ActionView::Finish
                    },
                    None => told == Seq::<ReportView>::empty() && match stages[count as int] {
                        StageView::External { program, arguments } => s.pending() == (
                        ActionView::Spawn {
                            stage: count,
                            program,
                            arguments,
                            input: if count > 0 {
                                Some((count - 1) as nat)
                            } else {
                                None
                            },
                            piped: count + 1 < stages.len(),
                        }),
                        _ => count == 0 && stages.len() == 1,
                    },
                }
            }
        }),
    decreases count,
{
    let stages = pipeline(line);
    let start = initial(line).0;
    lemma_initial_wf(line);
    lemma_pipeline_nonempty(line);
    if count == 0 {
        assert(all_spawned(0) =~= Seq::<EventView>::empty());
        assert(told(line, all_spawned(0)) =~= match initial(line).1 {
            Some(r) => seq![r],
            None => Seq::<ReportView>::empty(),
        });
    } else {
        let earlier = all_spawned((count - 1) as nat);
        lemma_started_in_order(line, (count - 1) as nat);
        assert(all_spawned(count).drop_last() =~= earlier);
        assert(all_spawned(count).last() == EventView::Spawned);
        lemma_run_wf(start, earlier);
        let s = start.run(earlier);
        lemma_spawn_order(s);
        assert(told(line, earlier) =~= Seq::<ReportView>::empty());
        assert(initial(line).1 is None);
        assert(start.reports(earlier) =~= Seq::<ReportView>::empty());
        match s.react(EventView::Spawned).1 {
            Some(r) => {
                assert(told(line, all_spawned(count)) =~= seq![r]);
            },
            None => {},
        }
    }
}

/// A failure to change the working directory is reported with the target
/// and ends nothing but the line itself.
pub proof fn lemma_directory_change(s: State, e: EventView)
    requires
        s.wf(),
        s.phase is ChangingDirectory,
        e is DirectoryChanged || e is DirectoryChangeFailed,
    ensures
        ({
            let (next, report) = s.react(e);
            &&& next.pending() is Finish
            &&& next.spawned == 0
            &&& report == match e {
                EventView::DirectoryChangeFailed { cause } => Some(
                    ReportView::DirectoryChangeFailure { target: s.target, cause },
                ),
                _ => None,
            }
        }),
{
}

/// A run goes one way only: from starting its stages to waiting for the
/// children, or to putting them down if the pipeline is given up, and from
/// either to its end. Waiting is never followed by putting children down,
/// nor the reverse, and the end is final.
pub proof fn lemma_phases_move_forward(s: State, e: EventView)
    requires
        s.wf(),
    ensures
        match s.phase {
            Phase::Spawning => true,
            Phase::ResolvingHome => s.react(e).0.phase is ResolvingHome || s.react(
                e,
            ).0.phase is ChangingDirectory,
            Phase::ChangingDirectory => s.react(e).0.phase is ChangingDirectory || s.react(
                e,
            ).0.phase is Done,
            Phase::Terminating => s.react(e).0.phase is Terminating || s.react(e).0.phase is Done,
            Phase::Waiting => s.react(e).0.phase is Waiting || s.react(e).0.phase is Done,
            Phase::Done => s.react(e).0 == s,
        },
        s.react(e).0.stages == s.stages,
        s.react(e).0.spawned >= s.spawned,
        s.react(e).0.reaped >= s.reaped,
{
}

/// Whether the executor has given the pipeline up or is done with it.
pub open spec fn closed_down(s: State) -> bool {
    s.phase is Terminating || s.phase is Done
}

/// A report of a kind that ends the pipeline is followed by no further
/// stage: whatever the executor is answered after it, it starts no program
/// and changes no directory, so no child is added to those that run.
pub proof fn lemma_abort_is_final(s: State, e: EventView, events: Seq<EventView>)
    requires
        s.wf(),
        s.react(e).1 matches Some(r) && r.aborts(),
    ensures
        closed_down(s.react(e).0.run(events)),
        !(s.react(e).0.run(events).pending() is Spawn),
        !(s.react(e).0.run(events).pending() is ChangeDirectory),
        !(s.react(e).0.run(events).pending() is LookUpHome),
        s.react(e).0.run(events).spawned == s.react(e).0.spawned,
    decreases events.len(),
{
    if events.len() > 0 {
        lemma_abort_is_final(s, e, events.drop_last());
    }
}

/// The classes of the reports `r`.
pub open spec fn report_classes(r: Seq<ReportView>) -> Seq<ReportView> {
    r.map_values(|x: ReportView| x.class())
}

/// The class of a report that may be absent.
pub open spec fn report_class(r: Option<ReportView>) -> Option<ReportView> {
    match r {
        Some(x) => Some(x.class()),
        None => None,
    }
}

/// Whether the answers `a` and `b` are of the same classes, one by one.
pub open spec fn same_classes(a: Seq<EventView>, b: Seq<EventView>) -> bool {
    &&& a.len() == b.len()
    &&& forall|i: int| 0 <= i < a.len() ==> (#[trigger] a[i]).class() == (#[trigger] b[i]).class()
}

/// Two executors that differ at most in the directory to change to, given
/// answers of one class, raise reports of one class, ask for actions of one
/// class, and still differ at most in that directory.
pub proof fn lemma_same_class_step(s: State, t: State, d: EventView, e: EventView)
    requires
        s.wf(),
        s.akin(t),
        d.class() == e.class(),
    ensures
        s.react(d).0.akin(t.react(e).0),
        report_class(s.react(d).1) == report_class(t.react(e).1),
        s.react(d).0.pending().class() == t.react(e).0.pending().class(),
{
}

/// Running a line again gives an outcome of the same class. The executor
/// keeps nothing from one line to the next, so what it reports and what it
/// asks for depend on the line and on the classes of the answers alone: on
/// whether a program could be started or a child succeeded, not on the text
/// of a cause or a status, nor on what the home directory is.
pub proof fn lemma_same_class_run(line: Seq<char>, a: Seq<EventView>, b: Seq<EventView>)
    requires
        same_classes(a, b),
    ensures
        ({
            let start = initial(line).0;
            &&& start.run(a).akin(start.run(b))
            &&& report_classes(start.reports(a)) == report_classes(start.reports(b))
            &&& start.run(a).pending().class() == start.run(b).pending().class()
        }),
    decreases a.len(),
{
    let start = initial(line).0;
    lemma_initial_wf(line);
    if a.len() > 0 {
        let x = a.drop_last();
        let y = b.drop_last();
        assert(same_classes(x, y)) by {
            assert forall|i: int| 0 <= i < x.len() implies (#[trigger] x[i]).class() == (
            #[trigger] y[i]).class() by {
                assert(a[i].class() == b[i].class());
            }
        }
        lemma_same_class_run(line, x, y);
        lemma_run_wf(start, x);
        assert(a.last().class() == b.last().class()) by {
            assert(a[a.len() - 1].class() == b[a.len() - 1].class());
        }
        lemma_same_class_step(start.run(x), start.run(y), a.last(), b.last());
        let p = start.reports(x);
        let q = start.reports(y);
        match start.run(x).react(a.last()).1 {
            Some(r) => {
                let r2 = start.run(y).react(b.last()).1->0;
                assert(report_classes(p.push(r)) =~= report_classes(p).push(r.class()));
                assert(report_classes(q.push(r2)) =~= report_classes(q).push(r2.class()));
            },
            None => {},
        }
    }
}

/// A line without a pipe has exactly one stage, read from the whole line.
/// If that stage is a program, it reads the shell's input and writes to the
/// shell's output, and once it runs nothing else is started: its child is
/// waited for.
pub proof fn lemma_single_stage(line: Seq<char>)
    requires
        free_of(line, Separator::Pipe),
    ensures
        pipeline(line) == seq![stage_of(words(trimmed(line)))],
        initial(line).0.pending() matches ActionView::Spawn { stage, input, piped, .. } ==> {
            &&& stage == 0
            &&& input is None
            &&& !piped
            &&& initial(line).0.react(EventView::Spawned).0.pending() == (ActionView::Wait {
                handle: 0,
            })
        },
{
    lemma_pieces_without_separator(line, Separator::Pipe);
    assert(segments(line) =~= seq![trimmed(line)]);
    assert(pipeline(line) =~= seq![stage_of(words(trimmed(line)))]);
    lemma_initial_wf(line);
}

} // verus!
