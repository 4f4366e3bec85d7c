//! The manager's state as a mathematical value, and what each event makes of it.

use std::sync::Arc;

use vstd::prelude::*;

use crate::adapter::{DiscoveredTestView, RunKind, TestAdapter, TestStatus};
use crate::discovery;
use crate::discovery::RunnableView;
use crate::resolve;
use crate::resolve::RunErrorView;
use crate::run::{
    BufferId, CurrentRunView, EffectsView, PreparedRunView, RunRequestView, TaskStatus,
    TerminalId, TestRunEventView,
};

verus! {

/// The state of the manager as a mathematical value.
#[verifier::ext_equal]
pub struct ManagerView<A: ?Sized> {
    pub adapters: Seq<Arc<A>>,
    pub buffer: Option<BufferId>,
    pub discovered: Seq<DiscoveredTestView>,
    pub statuses: Map<Seq<char>, TestStatus>,
    pub current_run: Option<CurrentRunView<A>>,
    pub last_run: Option<PreparedRunView<A>>,
    pub error: Option<Seq<char>>,
}

/// The state of a manager that has seen nothing yet.
pub open spec fn initial_state<A: ?Sized>(adapters: Seq<Arc<A>>) -> ManagerView<A> {
    ManagerView {
        adapters,
        buffer: None,
        discovered: Seq::empty(),
        statuses: Map::empty(),
        current_run: None,
        last_run: None,
        error: None,
    }
}

/// The status under a name: tests of which nothing is known have not run.
pub open spec fn status_of(statuses: Map<Seq<char>, TestStatus>, name: Seq<char>) -> TestStatus {
    if statuses.contains_key(name) {
        statuses[name]
    } else {
        TestStatus::NotRun
    }
}

/// The first target, from `i` on, that a reported name refers to.
pub open spec fn matching_target_from<A: TestAdapter + ?Sized>(
    adapter: Arc<A>,
    targets: Seq<DiscoveredTestView>,
    reported: Seq<char>,
    i: int,
) -> Option<int>
    decreases targets.len() - i,
{
    if i >= targets.len() {
        None
    } else if adapter.spec_matches(targets[i].name, reported) {
        Some(i)
    } else {
        matching_target_from(adapter, targets, reported, i + 1)
    }
}

/// A name and the status that is to stand under it.
pub type StatusUpdate = (Seq<char>, TestStatus);

/// What a reported result says of a run: the name of the first target that it refers to, with
/// the reported status.
pub open spec fn target_result<A: TestAdapter + ?Sized>(
    run: CurrentRunView<A>,
    result: (Seq<char>, TestStatus),
) -> Option<StatusUpdate> {
    match matching_target_from(run.adapter, run.targets, result.0, 0) {
        Some(i) => Some((run.targets[i].name, result.1)),
        None => None,
    }
}

/// The status that results give to the target of a name: where several of them speak of it, the
/// last one counts.
pub open spec fn last_result<A: TestAdapter + ?Sized>(
    run: CurrentRunView<A>,
    results: Seq<(Seq<char>, TestStatus)>,
    name: Seq<char>,
) -> Option<TestStatus>
    decreases results.len(),
{
    if results.len() == 0 {
        None
    } else {
        let earlier = last_result(run, results.drop_last(), name);
        match target_result(run, results.last()) {
            Some((target, status)) => if target == name {
                Some(status)
            } else {
                earlier
            },
            None => earlier,
        }
    }
}

/// The update that one of several results makes: none where it speaks of no target, where a later
/// result gives the target another status, and where the status stands there already.
pub open spec fn result_update<A: TestAdapter + ?Sized>(
    run: CurrentRunView<A>,
    statuses: Map<Seq<char>, TestStatus>,
    results: Seq<(Seq<char>, TestStatus)>,
    result: (Seq<char>, TestStatus),
) -> Option<StatusUpdate> {
    match target_result(run, result) {
        Some((name, status)) => if last_result(run, results, name) != Some(status) || (
        statuses.contains_key(name) && statuses[name] == status) {
            None
        } else {
            Some((name, status))
        },
        None => None,
    }
}

/// The updates that reported results make, in their order.
pub open spec fn result_updates<A: TestAdapter + ?Sized>(
    run: CurrentRunView<A>,
    statuses: Map<Seq<char>, TestStatus>,
    results: Seq<(Seq<char>, TestStatus)>,
) -> Seq<StatusUpdate> {
    results.filter_map(
        |result: (Seq<char>, TestStatus)| result_update(run, statuses, results, result),
    )
}

/// Statuses after updates, made one after the other.
pub open spec fn updated(
    statuses: Map<Seq<char>, TestStatus>,
    updates: Seq<StatusUpdate>,
) -> Map<Seq<char>, TestStatus>
    decreases updates.len(),
{
    if updates.len() == 0 {
        statuses
    } else {
        updated(statuses, updates.drop_last()).insert(updates.last().0, updates.last().1)
    }
}

/// The event that an update is worth: tests that passed or failed are told about.
pub open spec fn update_event(update: StatusUpdate) -> Option<TestRunEventView> {
    match update.1 {
        TestStatus::Passed => Some(TestRunEventView::TestPassed(update.0)),
        TestStatus::Failed => Some(TestRunEventView::TestFailed(update.0)),
        _ => None,
    }
}

/// The events that updates are worth, in their order.
pub open spec fn update_events(updates: Seq<StatusUpdate>) -> Seq<TestRunEventView> {
    updates.filter_map(|update: StatusUpdate| update_event(update))
}

/// The updates that the output of the current run makes.
pub open spec fn output_updates<A: TestAdapter + ?Sized>(
    state: ManagerView<A>,
    content: Seq<char>,
) -> Seq<StatusUpdate> {
    match state.current_run {
        Some(run) => result_updates(run, state.statuses, run.adapter.spec_results(content)),
        None => Seq::empty(),
    }
}

/// The state after updates.
pub open spec fn with_updates<A: ?Sized>(
    state: ManagerView<A>,
    updates: Seq<StatusUpdate>,
) -> ManagerView<A> {
    ManagerView { statuses: updated(state.statuses, updates), ..state }
}

/// The state after the output of the current run was read.
pub open spec fn after_output<A: TestAdapter + ?Sized>(
    state: ManagerView<A>,
    content: Seq<char>,
) -> ManagerView<A> {
    with_updates(state, output_updates(state, content))
}

/// The status of a test of which the output said nothing, when its run ends: the exit status
/// tells it for a run of one test, and for no other.
pub open spec fn fallback_status(target_count: nat, success: bool) -> TestStatus {
    if target_count == 1 {
        if success {
            TestStatus::Passed
        } else {
            TestStatus::Failed
        }
    } else {
        TestStatus::NotRun
    }
}

/// The update for a target when its run ends: none unless it still counts as running.
pub open spec fn unresolved_update(
    statuses: Map<Seq<char>, TestStatus>,
    fallback: TestStatus,
    target: DiscoveredTestView,
) -> Option<StatusUpdate> {
    if status_of(statuses, target.name) == TestStatus::Running {
        Some((target.name, fallback))
    } else {
        None
    }
}

/// The updates for the targets of the current run when it ends.
pub open spec fn unresolved_updates<A: ?Sized>(
    state: ManagerView<A>,
    success: bool,
) -> Seq<StatusUpdate> {
    match state.current_run {
        Some(run) => {
            let fallback = fallback_status(run.targets.len(), success);
            run.targets.filter_map(
                |target: DiscoveredTestView| unresolved_update(state.statuses, fallback, target),
            )
        },
        None => Seq::empty(),
    }
}

/// The state after the current run ended.
pub open spec fn after_finish<A: TestAdapter + ?Sized>(
    state: ManagerView<A>,
    content: Seq<char>,
    success: bool,
) -> ManagerView<A> {
    let read = after_output(state, content);
    with_updates(read, unresolved_updates(read, success))
}

/// The events of the end of the current run.
pub open spec fn finish_events<A: TestAdapter + ?Sized>(
    state: ManagerView<A>,
    content: Seq<char>,
    success: bool,
) -> Seq<TestRunEventView> {
    let read = after_output(state, content);
    update_events(output_updates(state, content)) + update_events(
        unresolved_updates(read, success),
    ) + seq![TestRunEventView::RunFinished { success }]
}

/// The updates that mark every target as running.
pub open spec fn started_updates(targets: Seq<DiscoveredTestView>) -> Seq<StatusUpdate> {
    targets.map_values(|target: DiscoveredTestView| (target.name, TestStatus::Running))
}

/// The events of the start of a run.
pub open spec fn start_events(targets: Seq<DiscoveredTestView>) -> Seq<TestRunEventView> {
    targets.map_values(
        |target: DiscoveredTestView| TestRunEventView::TestStarted(target.name),
    ).push(TestRunEventView::RunStarted)
}

/// The state after the terminal of a run was started.
pub open spec fn after_start<A: ?Sized>(
    state: ManagerView<A>,
    run: PreparedRunView<A>,
    terminal: TerminalId,
) -> ManagerView<A> {
    ManagerView {
        statuses: updated(state.statuses, started_updates(run.targets)),
        current_run: Some(
            CurrentRunView { terminal, adapter: run.adapter, targets: run.targets },
        ),
        ..state
    }
}

/// Statuses in which nothing counts as running any more.
pub open spec fn halted(statuses: Map<Seq<char>, TestStatus>) -> Map<Seq<char>, TestStatus> {
    statuses.map_values(
        |status: TestStatus|
            if status == TestStatus::Running {
                TestStatus::NotRun
            } else {
                status
            },
    )
}

/// The state after a run was taken up.
pub open spec fn after_execute<A: ?Sized>(
    state: ManagerView<A>,
    run: PreparedRunView<A>,
) -> ManagerView<A> {
    ManagerView { statuses: halted(state.statuses), last_run: Some(run), ..state }
}

/// The terminal of the current run, if its task is running.
pub open spec fn running_terminal<A: ?Sized>(
    state: ManagerView<A>,
    task: Option<TaskStatus>,
) -> Option<TerminalId> {
    match state.current_run {
        Some(run) => if task == Some(TaskStatus::Running) {
            Some(run.terminal)
        } else {
            None
        },
        None => None,
    }
}

/// The buffer that the manager points at, if it still exists.
pub open spec fn live_buffer<A: ?Sized>(state: ManagerView<A>, alive: bool) -> Option<BufferId> {
    if alive {
        state.buffer
    } else {
        None
    }
}

/// The run that is asked for, if there is a buffer, a target, and an adapter for the first
/// target.
pub open spec fn requested_run<A: TestAdapter + ?Sized>(
    state: ManagerView<A>,
    kind: RunKind,
    targets: Seq<DiscoveredTestView>,
    alive: bool,
) -> Option<RunRequestView<A>> {
    match live_buffer(state, alive) {
        Some(buffer) => if targets.len() == 0 {
            None
        } else {
            match discovery::first_adapter(state.adapters, targets[0].tag) {
                Some(adapter) => Some(RunRequestView { kind, buffer, targets, adapter }),
                None => None,
            }
        },
        None => None,
    }
}

/// The state after a run was asked for: the last error is forgotten if there is a run.
pub open spec fn after_request<A: ?Sized>(
    state: ManagerView<A>,
    request: Option<RunRequestView<A>>,
) -> ManagerView<A> {
    if request is Some {
        ManagerView { error: None, ..state }
    } else {
        state
    }
}

/// The run that is asked for when a single test is to run.
pub open spec fn requested_test<A: TestAdapter + ?Sized>(
    state: ManagerView<A>,
    index: int,
    alive: bool,
) -> Option<RunRequestView<A>> {
    if 0 <= index < state.discovered.len() {
        requested_run(state, RunKind::SingleTest, seq![state.discovered[index]], alive)
    } else {
        None
    }
}

/// The state after another buffer became active.
pub open spec fn after_buffer_change<A: ?Sized>(
    state: ManagerView<A>,
    buffer: Option<BufferId>,
    alive: bool,
) -> ManagerView<A> {
    if buffer == live_buffer(state, alive) {
        state
    } else {
        ManagerView {
            buffer,
            statuses: Map::empty(),
            discovered: if buffer is Some {
                state.discovered
            } else {
                Seq::empty()
            },
            ..state
        }
    }
}

/// The state after the runnables of a buffer were found: the tests among them are listed, if the
/// buffer is the one that the manager points at.
pub open spec fn after_discovery<A: TestAdapter + ?Sized>(
    state: ManagerView<A>,
    buffer: BufferId,
    runnables: Seq<RunnableView>,
) -> ManagerView<A> {
    if state.buffer == Some(buffer) {
        ManagerView { discovered: discovery::discovered_tests(state.adapters, runnables), ..state }
    } else {
        state
    }
}

/// What is told when the runnables of a buffer were found.
pub open spec fn discovery_effects<A: ?Sized>(
    state: ManagerView<A>,
    buffer: BufferId,
) -> EffectsView {
    if state.buffer == Some(buffer) {
        EffectsView { events: seq![TestRunEventView::DiscoveryUpdated], notify: true }
    } else {
        EffectsView { events: Seq::empty(), notify: false }
    }
}

/// The state after the last run was asked for once more: the last error is forgotten if there is
/// such a run.
pub open spec fn after_rerun<A: ?Sized>(state: ManagerView<A>) -> ManagerView<A> {
    if state.last_run is Some {
        ManagerView { error: None, ..state }
    } else {
        state
    }
}

/// The state after a run came to nothing.
pub open spec fn after_error<A: ?Sized>(
    state: ManagerView<A>,
    error: RunErrorView,
) -> ManagerView<A> {
    ManagerView { error: Some(resolve::error_message(error)), ..state }
}

/// What holds of the list in every state: each test in it can be run by an adapter, and without
/// a buffer it is empty.
pub open spec fn list_holds<A: TestAdapter + ?Sized>(
    adapters: Seq<Arc<A>>,
    buffer: Option<BufferId>,
    discovered: Seq<DiscoveredTestView>,
) -> bool {
    &&& forall|i: int|
        0 <= i < discovered.len() ==> discovery::marks_test(
            adapters,
            (#[trigger] discovered[i]).tag,
        )
    &&& buffer is None ==> discovered.len() == 0
}

} // verus!
