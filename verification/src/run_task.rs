//! The course of a run, from the request to the end of its process: what the manager makes of
//! each thing that happens, and what it asks for next.

use vstd::prelude::*;

use crate::adapter::{SpawnInTerminal, SpawnView, TestAdapter};
use crate::manager::TestRunnerManager;
use crate::resolve;
use crate::resolve::{
    Resolution, ResolutionView, ResolveReply, ResolveReplyView, ResolveRequest,
    ResolveRequestView, ResolveStep, ResolveStepView, RunError, RunErrorView,
};
use crate::run::{
    Effects, EffectsView, PreparedRun, PreparedRunView, RunRequest, TaskStatus, TerminalId,
};
use crate::state;
use crate::state::ManagerView;

verus! {

/// How far a run has come.
pub enum RunTask<A: ?Sized> {
    /// Its command is being resolved.
    Resolving { resolution: Resolution<A> },
    /// Its terminal is being started.
    Starting { run: PreparedRun<A> },
    /// Its process is running.
    Running,
}

/// How far a run has come, as a mathematical value.
pub enum RunTaskView<A: ?Sized> {
    Resolving { resolution: ResolutionView<A> },
    Starting { run: PreparedRunView<A> },
    Running,
}

impl<A: ?Sized> View for RunTask<A> {
    type V = RunTaskView<A>;

    open spec fn view(&self) -> RunTaskView<A> {
        match self {
            RunTask::Resolving { resolution } => RunTaskView::Resolving { resolution: resolution@ },
            RunTask::Starting { run } => RunTaskView::Starting { run: run@ },
            RunTask::Running => RunTaskView::Running,
        }
    }
}

/// What happens to a run.
pub enum RunEvent {
    /// A question of the resolution was answered.
    Replied { reply: ResolveReply },
    /// The terminal was started.
    TerminalStarted { terminal: TerminalId },
    /// The terminal could not be started.
    TerminalFailed { message: String },
    /// The process ended: the output of the terminal, and whether the process reported success,
    /// if it reported anything.
    Completed { content: String, exit_success: Option<bool> },
}

/// What happens to a run, as a mathematical value.
pub enum RunEventView {
    Replied { reply: ResolveReplyView },
    TerminalStarted { terminal: TerminalId },
    TerminalFailed { message: Seq<char> },
    Completed { content: Seq<char>, exit_success: Option<bool> },
}

impl View for RunEvent {
    type V = RunEventView;

    open spec fn view(&self) -> RunEventView {
        match self {
            RunEvent::Replied { reply } => RunEventView::Replied { reply: reply@ },
            RunEvent::TerminalStarted { terminal } => RunEventView::TerminalStarted {
                terminal: *terminal,
            },
            RunEvent::TerminalFailed { message } => RunEventView::TerminalFailed {
                message: message@,
            },
            RunEvent::Completed { content, exit_success } => RunEventView::Completed {
                content: content@,
                exit_success: *exit_success,
            },
        }
    }
}

/// What a run asks for.
pub enum RunAction {
    /// Answer a question of the resolution.
    Ask { request: ResolveRequest },
    /// Kill the task of a terminal, if one is given, then start a terminal with this command.
    Spawn { kill: Option<TerminalId>, spawn: SpawnInTerminal },
    /// Wait until the process in the terminal ends; read its output whenever there is more.
    AwaitCompletion { terminal: TerminalId },
    /// Nothing: the run is over.
    Nothing,
}

/// What a run asks for, as a mathematical value.
pub enum RunActionView {
    Ask { request: ResolveRequestView },
    Spawn { kill: Option<TerminalId>, spawn: SpawnView },
    AwaitCompletion { terminal: TerminalId },
    Nothing,
}

impl View for RunAction {
    type V = RunActionView;

    open spec fn view(&self) -> RunActionView {
        match self {
            RunAction::Ask { request } => RunActionView::Ask { request: request@ },
            RunAction::Spawn { kill, spawn } => RunActionView::Spawn { kill: *kill, spawn: spawn@ },
            RunAction::AwaitCompletion { terminal } => RunActionView::AwaitCompletion {
                terminal: *terminal,
            },
            RunAction::Nothing => RunActionView::Nothing,
        }
    }
}

/// Where a run stands after something happened: how far it has come, unless it is over, what it
/// asks for, and what is told.
pub struct RunStep<A: ?Sized> {
    pub task: Option<RunTask<A>>,
    pub action: RunAction,
    pub effects: Effects,
}

/// Where a run stands, as a mathematical value.
pub struct RunStepView<A: ?Sized> {
    pub task: Option<RunTaskView<A>>,
    pub action: RunActionView,
    pub effects: EffectsView,
}

impl<A: ?Sized> View for RunStep<A> {
    type V = RunStepView<A>;

    open spec fn view(&self) -> RunStepView<A> {
        RunStepView {
            task: match self.task {
                Some(task) => Some(task@),
                None => None,
            },
            action: self.action@,
            effects: self.effects@,
        }
    }
}

/// Nothing to tell.
pub open spec fn nothing_told() -> EffectsView {
    EffectsView { events: Seq::empty(), notify: false }
}

/// A run that came to nothing: the user is told why.
pub open spec fn run_failed<A: ?Sized>(state: ManagerView<A>, error: RunErrorView) -> (
    ManagerView<A>,
    RunStepView<A>,
) {
    (
        state::after_error(state, error),
        RunStepView {
            task: None,
            action: RunActionView::Nothing,
            effects: EffectsView { events: Seq::empty(), notify: true },
        },
    )
}

/// A run that is taken up: what ran before is killed, and the command is started.
pub open spec fn run_taken_up<A: ?Sized>(
    state: ManagerView<A>,
    run: PreparedRunView<A>,
    status: Option<TaskStatus>,
) -> (ManagerView<A>, RunStepView<A>) {
    (
        state::after_execute(state, run),
        RunStepView {
            task: Some(RunTaskView::Starting { run }),
            action: RunActionView::Spawn {
                kill: state::running_terminal(state, status),
                spawn: run.spawn,
            },
            effects: nothing_told(),
        },
    )
}

/// What follows from where a resolution stands.
pub open spec fn run_resolved<A: ?Sized>(
    state: ManagerView<A>,
    step: ResolveStepView<A>,
    status: Option<TaskStatus>,
) -> (ManagerView<A>, RunStepView<A>) {
    match step {
        ResolveStepView::Ask { resolution, request } => (
            state,
            RunStepView {
                task: Some(RunTaskView::Resolving { resolution }),
                action: RunActionView::Ask { request },
                effects: nothing_told(),
            },
        ),
        ResolveStepView::Ready { run } => run_taken_up(state, run, status),
        ResolveStepView::Failed { error } => run_failed(state, error),
    }
}

/// Whether an event comes in turn: whether it is what a run that has come so far waits for.
pub open spec fn in_turn<A: ?Sized>(task: RunTaskView<A>, event: RunEventView) -> bool {
    match event {
        RunEventView::Replied { reply } => task is Resolving,
        RunEventView::TerminalStarted { terminal } => task is Starting,
        RunEventView::TerminalFailed { message } => task is Starting,
        RunEventView::Completed { content, exit_success } => task is Running,
    }
}

/// What an event makes of the manager and of a run. An event that comes out of turn ends the run,
/// changes nothing else and tells nothing.
pub open spec fn run_step<A: TestAdapter + ?Sized>(
    state: ManagerView<A>,
    task: RunTaskView<A>,
    event: RunEventView,
    status: Option<TaskStatus>,
) -> (ManagerView<A>, RunStepView<A>) {
    match (task, event) {
        (RunTaskView::Resolving { resolution }, RunEventView::Replied { reply }) => run_resolved(
            state,
            resolve::next_step(resolution, reply),
            status,
        ),
        (RunTaskView::Starting { run }, RunEventView::TerminalStarted { terminal }) => (
            state::after_start(state, run, terminal),
            RunStepView {
                task: Some(RunTaskView::Running),
                action: RunActionView::AwaitCompletion { terminal },
                effects: EffectsView { events: state::start_events(run.targets), notify: true },
            },
        ),
        (RunTaskView::Starting { run }, RunEventView::TerminalFailed { message }) => run_failed(
            state,
            RunErrorView::Outside { message },
        ),
        (RunTaskView::Running, RunEventView::Completed { content, exit_success }) => (
            state::after_finish(state, content, exit_success == Some(true)),
            RunStepView {
                task: None,
                action: RunActionView::Nothing,
                effects: EffectsView {
                    events: state::finish_events(state, content, exit_success == Some(true)),
                    notify: true,
                },
            },
        ),
        _ => (
            state,
            RunStepView {
                task: None,
                action: RunActionView::Nothing,
                effects: nothing_told(),
            },
        ),
    }
}

impl<A: TestAdapter + ?Sized> TestRunnerManager<A> {
    /// Begins a run that was asked for. `status` is what became of the task of the current run's
    /// terminal, if the terminal has one.
    pub fn begin_run(&mut self, request: RunRequest<A>, status: Option<TaskStatus>) -> (r: RunStep<
        A,
    >)
        ensures
            (final(self)@, r@) == run_resolved(
                old(self)@,
                resolve::first_step(request@),
                status,
            ),
    {
        let step = resolve::resolve(request);
        self.follow_resolution(step, status)
    }

    /// Takes a prepared run up. `status` is what became of the task of the current run's terminal,
    /// if the terminal has one.
    pub fn take_up_run(&mut self, run: PreparedRun<A>, status: Option<TaskStatus>) -> (r: RunStep<
        A,
    >)
        ensures
            (final(self)@, r@) == run_taken_up(old(self)@, run@, status),
    {
        let kill = self.execute(&run, status);
        let spawn = run.spawn.clone();
        RunStep {
            task: Some(RunTask::Starting { run }),
            action: RunAction::Spawn { kill, spawn },
            effects: Effects::none(),
        }
    }

    /// Takes in what happened to a run. `status` is what became of the task of the current run's
    /// terminal, if the terminal has one.
    pub fn resume_run(
        &mut self,
        task: RunTask<A>,
        event: RunEvent,
        status: Option<TaskStatus>,
    ) -> (r: RunStep<A>)
        ensures
            (final(self)@, r@) == run_step(old(self)@, task@, event@, status),
    {
        match (task, event) {
            (RunTask::Resolving { resolution }, RunEvent::Replied { reply }) => {
                let step = resolution.advance(reply);
                self.follow_resolution(step, status)
            },
            (RunTask::Starting { run }, RunEvent::TerminalStarted { terminal }) => RunStep {
                task: Some(RunTask::Running),
                action: RunAction::AwaitCompletion { terminal },
                effects: self.run_started(run, terminal),
            },
            (RunTask::Starting { run: _ }, RunEvent::TerminalFailed { message }) => Self::over(
                self.set_error(RunError::Outside { message }),
            ),
            (RunTask::Running, RunEvent::Completed { content, exit_success }) => Self::over(
                self.finish_run(content.as_str(), exit_success),
            ),
            _ => Self::over(Effects::none()),
        }
    }

    /// Goes on from where a resolution stands.
    fn follow_resolution(&mut self, step: ResolveStep<A>, status: Option<TaskStatus>) -> (r: RunStep<
        A,
    >)
        ensures
            (final(self)@, r@) == run_resolved(old(self)@, step@, status),
    {
        match step {
            ResolveStep::Ask { resolution, request } => RunStep {
                task: Some(RunTask::Resolving { resolution }),
                action: RunAction::Ask { request },
                effects: Effects::none(),
            },
            ResolveStep::Ready { run } => self.take_up_run(run, status),
            ResolveStep::Failed { error } => Self::over(self.set_error(error)),
        }
    }

    /// A run that is over.
    fn over(effects: Effects) -> (r: RunStep<A>)
        ensures
            r@ == (RunStepView::<A> {
                task: None,
                action: RunActionView::Nothing,
                effects: effects@,
            }),
    {
        RunStep { task: None, action: RunAction::Nothing, effects }
    }
}

} // verus!
