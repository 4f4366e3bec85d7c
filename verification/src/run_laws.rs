//! What holds of the course of a run: proofs about what each event makes of the manager, what is
//! asked for next, and what is told.

use vstd::prelude::*;

use crate::adapter::TestAdapter;
use crate::resolve;
use crate::resolve::{
    ResolutionView, ResolveReplyView, ResolveRequestView, ResolveStepView, RunErrorView,
};
use crate::run::{EffectsView, PreparedRunView, TaskStatus, TerminalId, TestRunEventView};
use crate::run_task;
use crate::run_task::{RunActionView, RunEventView, RunStepView, RunTaskView};
use crate::state;
use crate::state::ManagerView;

verus! {

/// Whether nothing is told.
pub open spec fn silent(effects: EffectsView) -> bool {
    effects.events.len() == 0 && !effects.notify
}

/// Whether a step ends its run.
pub open spec fn over<A: ?Sized>(step: RunStepView<A>) -> bool {
    step.task is None && step.action == RunActionView::Nothing
}

/// A question of the resolution is asked as it is, and changes and tells nothing.
pub proof fn questions_are_asked_in_silence<A: ?Sized>(
    state: ManagerView<A>,
    resolution: ResolutionView<A>,
    request: ResolveRequestView,
    status: Option<TaskStatus>,
)
    ensures
        ({
            let (after, step) = run_task::run_resolved(
                state,
                ResolveStepView::Ask { resolution, request },
                status,
            );
            &&& after == state
            &&& step.task == Some(RunTaskView::Resolving { resolution })
            &&& step.action == (RunActionView::Ask { request })
            &&& silent(step.effects)
        }),
{
}

/// A run that is ready is taken up, whether it was resolved or is repeated: its command is started,
/// after the task of the current run was killed, if that one is running, and nothing is told yet.
pub proof fn ready_runs_start_their_command<A: ?Sized>(
    state: ManagerView<A>,
    run: PreparedRunView<A>,
    status: Option<TaskStatus>,
)
    ensures
        run_task::run_resolved(state, ResolveStepView::Ready { run }, status)
            == run_task::run_taken_up(state, run, status),
        ({
            let (after, step) = run_task::run_taken_up(state, run, status);
            &&& after == state::after_execute(state, run)
            &&& step.task == Some(RunTaskView::Starting { run })
            &&& step.action matches RunActionView::Spawn { kill, spawn }
            &&& spawn == run.spawn
            &&& match kill {
                Some(terminal) => state.current_run is Some && (state.current_run->0).terminal
                    == terminal && status == Some(TaskStatus::Running),
                None => state.current_run is None || status != Some(TaskStatus::Running),
            }
            &&& silent(step.effects)
        }),
{
}

/// A run that comes to nothing is over: the error is kept, observers are notified, and no event is
/// told.
pub proof fn failed_runs_are_over<A: ?Sized>(
    state: ManagerView<A>,
    error: RunErrorView,
    status: Option<TaskStatus>,
)
    ensures
        ({
            let (after, step) = run_task::run_resolved(
                state,
                ResolveStepView::Failed { error },
                status,
            );
            &&& after == state::after_error(state, error)
            &&& over(step)
            &&& step.effects.events.len() == 0
            &&& step.effects.notify
        }),
{
}

/// A reply moves the resolution on, by what the resolution makes of it.
pub proof fn replies_move_the_resolution_on<A: TestAdapter + ?Sized>(
    state: ManagerView<A>,
    resolution: ResolutionView<A>,
    reply: ResolveReplyView,
    status: Option<TaskStatus>,
)
    ensures
        run_task::run_step(
            state,
            RunTaskView::Resolving { resolution },
            RunEventView::Replied { reply },
            status,
        ) == run_task::run_resolved(state, resolve::next_step(resolution, reply), status),
{
}

/// Once its terminal was started, a run is the current one and waits for the end of that terminal's
/// process, and its start is told.
pub proof fn started_runs_wait_for_their_end<A: TestAdapter + ?Sized>(
    state: ManagerView<A>,
    run: PreparedRunView<A>,
    terminal: TerminalId,
    status: Option<TaskStatus>,
)
    ensures
        ({
            let (after, step) = run_task::run_step(
                state,
                RunTaskView::Starting { run },
                RunEventView::TerminalStarted { terminal },
                status,
            );
            &&& after == state::after_start(state, run, terminal)
            &&& step.task == Some(RunTaskView::<A>::Running)
            &&& step.action == (RunActionView::AwaitCompletion { terminal })
            &&& step.effects.notify
            &&& step.effects.events == state::start_events(run.targets)
        }),
{
}

/// A terminal that does not start ends the run, with the message of the failure as the error.
pub proof fn terminals_that_do_not_start_end_the_run<A: TestAdapter + ?Sized>(
    state: ManagerView<A>,
    run: PreparedRunView<A>,
    message: Seq<char>,
    status: Option<TaskStatus>,
)
    ensures
        ({
            let (after, step) = run_task::run_step(
                state,
                RunTaskView::Starting { run },
                RunEventView::TerminalFailed { message },
                status,
            );
            &&& after == (ManagerView { error: Some(message), ..state })
            &&& over(step)
            &&& step.effects.events.len() == 0
            &&& step.effects.notify
        }),
{
}

/// When its process ended, a run is over: it succeeded exactly where the process said so, and the
/// last event tells that.
pub proof fn ended_runs_are_over<A: TestAdapter + ?Sized>(
    state: ManagerView<A>,
    content: Seq<char>,
    exit_success: Option<bool>,
    status: Option<TaskStatus>,
)
    ensures
        ({
            let success = exit_success is Some && exit_success->0;
            let (after, step) = run_task::run_step(
                state,
                RunTaskView::Running,
                RunEventView::Completed { content, exit_success },
                status,
            );
            &&& after == state::after_finish(state, content, success)
            &&& over(step)
            &&& step.effects.notify
            &&& step.effects.events == state::finish_events(state, content, success)
            &&& step.effects.events.last() == (TestRunEventView::RunFinished { success })
        }),
{
}

/// An event is in turn exactly where it is what the run waits for.
pub proof fn turns_follow_the_course<A: ?Sized>(task: RunTaskView<A>, event: RunEventView)
    ensures
        run_task::in_turn(task, event) <==> {
            ||| task is Resolving && event is Replied
            ||| task is Starting && (event is TerminalStarted || event is TerminalFailed)
            ||| task is Running && event is Completed
        },
        run_task::nothing_told() == (EffectsView { events: Seq::empty(), notify: false }),
{
}

} // verus!
