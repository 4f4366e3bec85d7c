//! What holds of each transition of the manager: proofs about what a transition changes, what it
//! leaves as it was, and what is told.

use std::sync::Arc;

use vstd::prelude::*;

use crate::adapter::{DiscoveredTestView, RunKind, TestAdapter, TestStatus};
use crate::discovery;
use crate::discovery::RunnableView;
use crate::discovery_laws;
use crate::laws;
use crate::resolve::RunErrorView;
use crate::run::{
    BufferId, CurrentRunView, PreparedRunView, RunRequestView, TaskStatus, TerminalId,
    TestRunEventView,
};
use crate::state;
use crate::state::{ManagerView, StatusUpdate};

verus! {

broadcast use vstd::seq_lib::group_seq_properties;

/// Whether two states know the same adapters, point at the same buffer and list the same tests.
pub open spec fn same_list<A: ?Sized>(a: ManagerView<A>, b: ManagerView<A>) -> bool {
    a.adapters == b.adapters && a.buffer == b.buffer && a.discovered == b.discovered
}

/// Whether two states have the same current run and the same run to repeat.
pub open spec fn same_runs<A: ?Sized>(a: ManagerView<A>, b: ManagerView<A>) -> bool {
    a.current_run == b.current_run && a.last_run == b.last_run
}

/// A new manager has its adapters, and knows nothing else.
pub proof fn a_new_manager_knows_nothing<A: ?Sized>(adapters: Seq<Arc<A>>)
    ensures
        ({
            let state = state::initial_state(adapters);
            &&& state.adapters == adapters
            &&& state.buffer is None
            &&& state.discovered.len() == 0
            &&& forall|name: Seq<char>| !#[trigger] state.statuses.contains_key(name)
            &&& state.current_run is None
            &&& state.last_run is None
            &&& state.error is None
        }),
{
}

/// A test has the status that stands under its name, and has not run where none does.
pub proof fn tests_without_a_status_have_not_run(
    statuses: Map<Seq<char>, TestStatus>,
    name: Seq<char>,
)
    ensures
        statuses.contains_key(name) ==> state::status_of(statuses, name) == statuses[name],
        !statuses.contains_key(name) ==> state::status_of(statuses, name) == TestStatus::NotRun,
{
}

/// The terminal to be killed is that of the current run, exactly while its task runs.
pub proof fn running_terminals_are_those_of_current_runs<A: ?Sized>(
    state: ManagerView<A>,
    task: Option<TaskStatus>,
)
    ensures
        match state::running_terminal(state, task) {
            Some(terminal) => state.current_run is Some && (state.current_run->0).terminal
                == terminal && task == Some(TaskStatus::Running),
            None => state.current_run is None || task != Some(TaskStatus::Running),
        },
{
}

/// The active buffer is the one that the manager points at, as long as it exists.
pub proof fn active_buffers_exist<A: ?Sized>(state: ManagerView<A>, alive: bool, buffer: BufferId)
    ensures
        state::live_buffer(state, alive) == Some(buffer) <==> alive && state.buffer == Some(buffer),
{
}

/// A run that is asked for has the targets, the kind and the buffer that it was asked for with, and
/// the adapter of its first target; it is refused exactly where there is no buffer, no target, or no
/// adapter that knows the tag of the first target.
pub proof fn runs_have_what_was_asked_for<A: TestAdapter + ?Sized>(
    state: ManagerView<A>,
    kind: RunKind,
    targets: Seq<DiscoveredTestView>,
    alive: bool,
)
    ensures
        match state::requested_run(state, kind, targets, alive) {
            Some(request) => {
                &&& request.kind == kind
                &&& request.targets == targets
                &&& alive
                &&& state.buffer == Some(request.buffer)
                &&& targets.len() > 0
                &&& discovery::first_adapter(state.adapters, targets[0].tag) == Some(
                    request.adapter,
                )
                &&& request.adapter.spec_tags().contains(targets[0].tag)
            },
            None => !alive || state.buffer is None || targets.len() == 0
                || !discovery_laws::known_tag(state.adapters, targets[0].tag),
        },
{
    if targets.len() > 0 {
        discovery_laws::the_first_adapter_that_knows_a_tag_runs_it(state.adapters, targets[0].tag);
    }
}

/// A run of the file targets all the tests of the list, in their order, whatever their tags.
pub proof fn file_runs_target_the_whole_list<A: TestAdapter + ?Sized>(
    state: ManagerView<A>,
    alive: bool,
)
    ensures
        state::requested_run(state, RunKind::File, state.discovered, alive) matches Some(request)
            ==> request.targets == state.discovered && request.kind == RunKind::File,
{
    runs_have_what_was_asked_for(state, RunKind::File, state.discovered, alive);
}

/// A run of a single test targets the test at the place that was asked for, and no other.
pub proof fn single_runs_target_one_test<A: TestAdapter + ?Sized>(
    state: ManagerView<A>,
    index: int,
    alive: bool,
)
    ensures
        match state::requested_test(state, index, alive) {
            Some(request) => {
                &&& 0 <= index < state.discovered.len()
                &&& request.kind == RunKind::SingleTest
                &&& request.targets.len() == 1
                &&& request.targets[0] == state.discovered[index]
                &&& alive
                &&& state.buffer == Some(request.buffer)
                &&& request.adapter.spec_tags().contains(state.discovered[index].tag)
            },
            None => !(0 <= index < state.discovered.len()) || !alive || state.buffer is None
                || !discovery_laws::known_tag(state.adapters, state.discovered[index].tag),
        },
{
    if 0 <= index < state.discovered.len() {
        runs_have_what_was_asked_for(
            state,
            RunKind::SingleTest,
            seq![state.discovered[index]],
            alive,
        );
    }
}

/// Asking for a run forgets the last error where there is a run, and changes nothing else.
pub proof fn asking_forgets_the_error_alone<A: ?Sized>(
    state: ManagerView<A>,
    request: Option<RunRequestView<A>>,
)
    ensures
        ({
            let after = state::after_request(state, request);
            &&& same_list(after, state)
            &&& same_runs(after, state)
            &&& after.statuses == state.statuses
            &&& request is Some ==> after.error is None
            &&& request is None ==> after.error == state.error
        }),
        ({
            let after = state::after_rerun(state);
            &&& same_list(after, state)
            &&& same_runs(after, state)
            &&& after.statuses == state.statuses
            &&& state.last_run is Some ==> after.error is None
            &&& state.last_run is None ==> after.error == state.error
        }),
{
}

/// An error is kept in the words in which it is told, and changes nothing else.
pub proof fn errors_change_the_error_alone<A: ?Sized>(
    state: ManagerView<A>,
    error: RunErrorView,
)
    ensures
        ({
            let after = state::after_error(state, error);
            &&& same_list(after, state)
            &&& same_runs(after, state)
            &&& after.statuses == state.statuses
            &&& after.error == Some(crate::resolve::error_message(error))
        }),
{
}

/// A buffer that becomes active is the one that is pointed at from then on: the results are
/// forgotten, the list stays until the tests of the buffer are known, and is emptied where there is
/// no buffer. The active buffer, made active once more, changes nothing; and the runs stay in any
/// case.
pub proof fn buffers_that_become_active_are_pointed_at<A: ?Sized>(
    state: ManagerView<A>,
    buffer: Option<BufferId>,
    alive: bool,
)
    ensures
        ({
            let active = if alive {
                state.buffer
            } else {
                None
            };
            let after = state::after_buffer_change(state, buffer, alive);
            &&& same_runs(after, state)
            &&& after.adapters == state.adapters
            &&& after.error == state.error
            &&& buffer == active ==> after == state
            &&& buffer != active ==> {
                &&& after.buffer == buffer
                &&& forall|name: Seq<char>| !#[trigger] after.statuses.contains_key(name)
                &&& buffer is Some ==> after.discovered == state.discovered
                &&& buffer is None ==> after.discovered.len() == 0
            }
        }),
{
}

/// What was found in the active buffer is listed, and told; nothing else changes. What was found in
/// another buffer changes nothing, and nothing is told.
pub proof fn discoveries_in_the_active_buffer_are_listed<A: TestAdapter + ?Sized>(
    state: ManagerView<A>,
    buffer: BufferId,
    runnables: Seq<RunnableView>,
)
    ensures
        ({
            let after = state::after_discovery(state, buffer, runnables);
            let effects = state::discovery_effects(state, buffer);
            &&& same_runs(after, state)
            &&& after.adapters == state.adapters
            &&& after.buffer == state.buffer
            &&& after.statuses == state.statuses
            &&& after.error == state.error
            &&& state.buffer == Some(buffer) ==> {
                &&& after.discovered == discovery::discovered_tests(state.adapters, runnables)
                &&& effects.notify
                &&& effects.events == seq![TestRunEventView::DiscoveryUpdated]
            }
            &&& state.buffer != Some(buffer) ==> {
                &&& after.discovered == state.discovered
                &&& !effects.notify
                &&& effects.events.len() == 0
            }
        }),
{
}

/// Taking a run up makes it the run to repeat, has no test count as running, keeps every other
/// status, and changes nothing else.
pub proof fn taken_up_runs_are_the_ones_to_repeat<A: ?Sized>(
    state: ManagerView<A>,
    run: PreparedRunView<A>,
    name: Seq<char>,
)
    ensures
        ({
            let after = state::after_execute(state, run);
            &&& same_list(after, state)
            &&& after.current_run == state.current_run
            &&& after.error == state.error
            &&& after.last_run == Some(run)
            &&& after.statuses.contains_key(name) == state.statuses.contains_key(name)
            &&& state.statuses.contains_key(name) ==> after.statuses[name] == (
            if state.statuses[name] == TestStatus::Running {
                TestStatus::NotRun
            } else {
                state.statuses[name]
            })
        }),
{
}

/// When its terminal was started, a run is the current one, with its terminal, its targets and its
/// adapter; the runs to repeat, the list and the error stay. Each target is told about in its order,
/// then the start of the run.
pub proof fn started_runs_are_current<A: ?Sized>(
    state: ManagerView<A>,
    run: PreparedRunView<A>,
    terminal: TerminalId,
)
    ensures
        ({
            let after = state::after_start(state, run, terminal);
            &&& same_list(after, state)
            &&& after.error == state.error
            &&& after.last_run == state.last_run
            &&& after.current_run is Some
            &&& (after.current_run->0).terminal == terminal
            &&& (after.current_run->0).adapter == run.adapter
            &&& (after.current_run->0).targets == run.targets
        }),
        ({
            let events = state::start_events(run.targets);
            &&& events.len() == run.targets.len() + 1
            &&& forall|k: int|
                0 <= k < run.targets.len() ==> #[trigger] events[k]
                    == TestRunEventView::TestStarted(run.targets[k].name)
            &&& events.last() == TestRunEventView::RunStarted
        }),
{
}

/// Reading the output changes statuses alone, and so does the end of a run.
pub proof fn readings_change_statuses_alone<A: TestAdapter + ?Sized>(
    state: ManagerView<A>,
    content: Seq<char>,
    success: bool,
)
    ensures
        ({
            let after = state::after_output(state, content);
            same_list(after, state) && same_runs(after, state) && after.error == state.error
        }),
        ({
            let after = state::after_finish(state, content, success);
            same_list(after, state) && same_runs(after, state) && after.error == state.error
        }),
{
}

/// A result speaks of the first target whose name it matches, with the status that was reported, and
/// of none where it matches none.
pub proof fn results_speak_of_their_first_target<A: TestAdapter + ?Sized>(
    run: CurrentRunView<A>,
    result: (Seq<char>, TestStatus),
)
    ensures
        match state::target_result(run, result) {
            Some((name, status)) => status == result.1 && exists|t: int|
                0 <= t < run.targets.len() && (#[trigger] run.targets[t]).name == name
                    && run.adapter.spec_matches(name, result.0) && forall|j: int|
                    0 <= j < t ==> !run.adapter.spec_matches(
                        (#[trigger] run.targets[j]).name,
                        result.0,
                    ),
            None => forall|j: int|
                0 <= j < run.targets.len() ==> !run.adapter.spec_matches(
                    (#[trigger] run.targets[j]).name,
                    result.0,
                ),
        },
{
    laws::reported_names_find_their_first_target(run.adapter, run.targets, result.0, 0);
    match state::matching_target_from(run.adapter, run.targets, result.0, 0) {
        Some(t) => {
            assert(run.targets[t].name == run.targets[t].name);
        },
        None => {},
    }
}

/// A test of which no result speaks has no last result, and one with a last result is spoken of by
/// a result with that status.
pub proof fn last_results_were_reported<A: TestAdapter + ?Sized>(
    run: CurrentRunView<A>,
    results: Seq<(Seq<char>, TestStatus)>,
    name: Seq<char>,
)
    ensures
        match state::last_result(run, results, name) {
            Some(status) => exists|i: int|
                0 <= i < results.len() && state::target_result(run, #[trigger] results[i]) == Some(
                    (name, status),
                ) && forall|j: int|
                    i < j < results.len() ==> (state::target_result(
                        run,
                        #[trigger] results[j],
                    ) matches Some(later) ==> later.0 != name),
            None => forall|i: int|
                0 <= i < results.len() ==> (state::target_result(
                    run,
                    #[trigger] results[i],
                ) matches Some(spoken) ==> spoken.0 != name),
        },
    decreases results.len(),
{
    if results.len() > 0 {
        let rest = results.drop_last();
        let last = results.len() - 1;
        last_results_were_reported(run, rest, name);
        let spoken = state::target_result(run, results[last]);
        if spoken is Some && (spoken->0).0 == name {
            assert(state::target_result(run, results[last]) == Some((name, (spoken->0).1)));
        } else {
            match state::last_result(run, rest, name) {
                Some(status) => {
                    let i = choose|i: int|
                        0 <= i < rest.len() && state::target_result(run, #[trigger] rest[i])
                            == Some((name, status)) && forall|j: int|
                            i < j < rest.len() ==> (state::target_result(
                                run,
                                #[trigger] rest[j],
                            ) matches Some(later) ==> later.0 != name);
                    assert(results[i] == rest[i]);
                    assert forall|j: int| i < j < results.len() implies (state::target_result(
                        run,
                        #[trigger] results[j],
                    ) matches Some(later) ==> later.0 != name) by {
                        if j < last {
                            assert(results[j] == rest[j]);
                        }
                    }
                },
                None => {
                    assert forall|i: int| 0 <= i < results.len() implies (state::target_result(
                        run,
                        #[trigger] results[i],
                    ) matches Some(spoken) ==> spoken.0 != name) by {
                        if i < last {
                            assert(results[i] == rest[i]);
                        }
                    }
                },
            }
        }
    }
}

/// The last update that speaks of a name is the one that counts.
pub proof fn the_last_update_counts(
    statuses: Map<Seq<char>, TestStatus>,
    updates: Seq<StatusUpdate>,
    k: int,
)
    requires
        0 <= k < updates.len(),
        forall|j: int| k < j < updates.len() ==> (#[trigger] updates[j]).0 != updates[k].0,
    ensures
        state::updated(statuses, updates).contains_key(updates[k].0),
        state::updated(statuses, updates)[updates[k].0] == updates[k].1,
    decreases updates.len(),
{
    if k < updates.len() - 1 {
        let rest = updates.drop_last();
        assert forall|j: int| k < j < rest.len() implies (#[trigger] rest[j]).0 != rest[k].0 by {
            assert(rest[j] == updates[j]);
        }
        the_last_update_counts(statuses, rest, k);
        assert(updates[updates.len() - 1].0 != updates[k].0);
    }
}

/// The updates of an output come from results of the current run, in their order: from each that
/// speaks of a target, gives it its last status, and does not say what was known. Returns the places
/// of those results.
pub proof fn updates_come_from_results<A: TestAdapter + ?Sized>(
    state: ManagerView<A>,
    content: Seq<char>,
) -> (places: Seq<int>)
    requires
        state.current_run is Some,
    ensures
        ({
            let run = state.current_run->0;
            let results = run.adapter.spec_results(content);
            let updates = state::output_updates(state, content);
            &&& places.len() == updates.len()
            &&& discovery_laws::in_order(places)
            &&& forall|k: int|
                0 <= k < places.len() ==> {
                    &&& 0 <= #[trigger] places[k] < results.len()
                    &&& state::target_result(run, results[places[k]]) == Some(updates[k])
                }
            &&& forall|i: int|
                0 <= i < results.len() ==> (places.contains(i) <==> {
                    &&& state::target_result(run, #[trigger] results[i]) matches Some((
                        name,
                        status,
                    ))
                    &&& state::last_result(run, results, name) == Some(status)
                    &&& !(state.statuses.contains_key(name) && state.statuses[name] == status)
                })
        }),
{
    let run = state.current_run->0;
    let results = run.adapter.spec_results(content);
    let f = |result: (Seq<char>, TestStatus)|
        state::result_update(run, state.statuses, results, result);
    assert(state::output_updates(state, content) == results.filter_map(f));
    let places = discovery_laws::lemma_filter_map_places(results, f);
    assert forall|i: int| 0 <= i < results.len() && places.contains(i) implies f(
        #[trigger] results[i],
    ) is Some by {
        let k = choose|k: int| 0 <= k < places.len() && places[k] == i;
        assert(f(results[places[k]]) is Some);
    }
    assert forall|k: int| 0 <= k < places.len() implies 0 <= #[trigger] places[k] < results.len()
        && state::target_result(run, results[places[k]]) == Some(
        state::output_updates(state, content)[k],
    ) by {}
    assert forall|i: int| 0 <= i < results.len() implies (places.contains(i) <==> {
        &&& state::target_result(run, #[trigger] results[i]) matches Some((name, status))
        &&& state::last_result(run, results, name) == Some(status)
        &&& !(state.statuses.contains_key(name) && state.statuses[name] == status)
    }) by {
        assert(f(results[i]) is Some ==> places.contains(i));
    }
    places
}

/// Without a current run there is nothing that an output could update.
pub proof fn outputs_need_a_run<A: TestAdapter + ?Sized>(
    state: ManagerView<A>,
    content: Seq<char>,
)
    requires
        state.current_run is None,
    ensures
        state::output_updates(state, content).len() == 0,
        state::after_output(state, content) == state,
{
}

/// Tests that passed or failed are told about, under their names, and no others are.
pub proof fn passed_and_failed_tests_are_told_about(name: Seq<char>, status: TestStatus)
    ensures
        match state::update_event((name, status)) {
            Some(event) => {
                ||| status == TestStatus::Passed && event == TestRunEventView::TestPassed(name)
                ||| status == TestStatus::Failed && event == TestRunEventView::TestFailed(name)
            },
            None => status != TestStatus::Passed && status != TestStatus::Failed,
        },
{
}

/// What is told of updates is told in their order, once for each that is worth an event. Returns the
/// places of those updates.
pub proof fn updates_are_told_in_their_order(updates: Seq<StatusUpdate>) -> (places: Seq<int>)
    ensures
        places.len() == state::update_events(updates).len(),
        discovery_laws::in_order(places),
        forall|k: int|
            0 <= k < places.len() ==> 0 <= #[trigger] places[k] < updates.len()
                && state::update_event(updates[places[k]]) == Some(
                state::update_events(updates)[k],
            ),
        forall|i: int|
            0 <= i < updates.len() && (updates[i].1 == TestStatus::Passed || updates[i].1
                == TestStatus::Failed) ==> #[trigger] places.contains(i),
{
    let f = |update: StatusUpdate| state::update_event(update);
    assert(state::update_events(updates) == updates.filter_map(f));
    let places = discovery_laws::lemma_filter_map_places(updates, f);
    assert forall|i: int|
        0 <= i < updates.len() && (updates[i].1 == TestStatus::Passed || updates[i].1
            == TestStatus::Failed) implies #[trigger] places.contains(i) by {
        assert(f(updates[i]) is Some);
    }
    places
}

/// What is told when a run ends: first what the last reading of the output tells, then, for a run of
/// one test that the output left running, whether the test passed or failed by the exit status, and
/// at last that the run ended, and how.
pub proof fn ends_are_told_last<A: TestAdapter + ?Sized>(
    state: ManagerView<A>,
    content: Seq<char>,
    success: bool,
)
    ensures
        ({
            let read = state::update_events(state::output_updates(state, content));
            let known = state::after_output(state, content).statuses;
            let end = seq![TestRunEventView::RunFinished { success }];
            let settled = match state.current_run {
                Some(run) => if run.targets.len() == 1 && state::status_of(
                    known,
                    run.targets[0].name,
                ) == TestStatus::Running {
                    if success {
                        seq![TestRunEventView::TestPassed(run.targets[0].name)]
                    } else {
                        seq![TestRunEventView::TestFailed(run.targets[0].name)]
                    }
                } else {
                    Seq::empty()
                },
                None => Seq::empty(),
            };
            state::finish_events(state, content, success) == read + settled + end
        }),
{
    let read = state::after_output(state, content);
    let updates = state::unresolved_updates(read, success);
    let g = |update: StatusUpdate| state::update_event(update);
    match state.current_run {
        Some(run) => {
            let fallback = state::fallback_status(run.targets.len(), success);
            let f = |target: DiscoveredTestView|
                state::unresolved_update(read.statuses, fallback, target);
            assert(updates == run.targets.filter_map(f));
            if run.targets.len() == 1 {
                assert(run.targets =~= seq![run.targets[0]]);
                Seq::lemma_filter_map_singleton(run.targets[0], f);
                if updates.len() > 0 {
                    assert(updates =~= seq![(run.targets[0].name, fallback)]);
                    Seq::lemma_filter_map_singleton((run.targets[0].name, fallback), g);
                }
            } else {
                let places = discovery_laws::lemma_filter_map_places(run.targets, f);
                let told = updates_are_told_in_their_order(updates);
                if told.len() > 0 {
                    let p = told[0];
                    assert(f(run.targets[places[p]]) == Some(updates[p]));
                }
                assert(state::update_events(updates) =~= Seq::<TestRunEventView>::empty());
            }
        },
        None => {},
    }
    if updates.len() == 0 {
        assert(updates =~= Seq::<StatusUpdate>::empty());
        assert(updates.filter_map(g) =~= Seq::<TestRunEventView>::empty());
    }
}

} // verus!
