//! What holds of the manager over several events: proofs about the transitions of its state.

use std::sync::Arc;

use vstd::prelude::*;

use crate::adapter::{DiscoveredTestView, RunKind, SpawnView, TestAdapter, TestStatus};
use crate::discovery;
use crate::discovery::RunnableView;
use crate::resolve;
use crate::resolve::{
    ResolutionView, ResolveReplyView, ResolveRequestView, ResolveStage, RunErrorView,
};
use crate::run::{
    BufferId, CurrentRunView, PreparedRunView, RunRequestView, TaskStatus, TerminalId,
    TestRunEventView,
};
use crate::run_task;
use crate::run_task::{RunActionView, RunEventView, RunTaskView};
use crate::state;
use crate::state::{ManagerView, StatusUpdate};

verus! {

broadcast use vstd::seq_lib::group_seq_properties;

/// What `f` makes of an element of a sequence is in what it makes of the sequence.
proof fn lemma_filter_map_has<T, U>(s: Seq<T>, f: spec_fn(T) -> Option<U>, i: int)
    requires
        0 <= i < s.len(),
        f(s[i]) is Some,
    ensures
        s.filter_map(f).contains(f(s[i])->0),
    decreases s.len(),
{
    let rest = s.drop_last();
    let made = s.filter_map(f);
    if i == s.len() - 1 {
        assert(made == rest.filter_map(f) + seq![f(s[i])->0]);
        assert(made[made.len() - 1] == f(s[i])->0);
    } else {
        lemma_filter_map_has(rest, f, i);
        let k = choose|k: int|
            0 <= k < rest.filter_map(f).len() && rest.filter_map(f)[k] == f(rest[i])->0;
        assert(made[k] == f(s[i])->0);
    }
}

/// Whether some update speaks of a name.
pub open spec fn speaks_of(updates: Seq<StatusUpdate>, name: Seq<char>) -> bool {
    exists|k: int| 0 <= k < updates.len() && (#[trigger] updates[k]).0 == name
}

/// After updates, a name that they speak of has a status that one of them gave it, and another
/// name has what it had.
pub proof fn updates_set_what_they_speak_of(
    statuses: Map<Seq<char>, TestStatus>,
    updates: Seq<StatusUpdate>,
    name: Seq<char>,
)
    ensures
        ({
            let after = state::updated(statuses, updates);
            if speaks_of(updates, name) {
                after.contains_key(name) && updates.contains((name, after[name]))
            } else {
                after.contains_key(name) == statuses.contains_key(name) && after[name]
                    == statuses[name]
            }
        }),
    decreases updates.len(),
{
    if updates.len() > 0 {
        let rest = updates.drop_last();
        let last = updates.last();
        let after = state::updated(statuses, updates);
        updates_set_what_they_speak_of(statuses, rest, name);
        if last.0 == name {
            assert(updates[updates.len() - 1].0 == name);
            assert(updates[updates.len() - 1] == (name, after[name]));
        } else {
            if speaks_of(rest, name) {
                let k = choose|k: int| 0 <= k < rest.len() && (#[trigger] rest[k]).0 == name;
                assert(updates[k].0 == name);
                let v = choose|v: int| 0 <= v < rest.len() && rest[v] == (name, after[name]);
                assert(updates[v] == (name, after[name]));
            }
            if speaks_of(updates, name) {
                let k = choose|k: int| 0 <= k < updates.len() && (#[trigger] updates[k]).0 == name;
                assert(rest[k].0 == name);
            }
        }
    }
}

/// A last result is given by one of the results.
proof fn lemma_last_result_origin<A: TestAdapter + ?Sized>(
    run: CurrentRunView<A>,
    results: Seq<(Seq<char>, TestStatus)>,
    name: Seq<char>,
) -> (i: int)
    requires
        state::last_result(run, results, name) is Some,
    ensures
        0 <= i < results.len(),
        state::target_result(run, results[i]) == Some(
            (name, state::last_result(run, results, name)->0),
        ),
    decreases results.len(),
{
    let last = results.len() - 1;
    match state::target_result(run, results[last]) {
        Some((target, status)) if target == name => last,
        _ => lemma_last_result_origin(run, results.drop_last(), name),
    }
}

/// The updates that results make are the last results of the targets, as far as they differ from
/// what was known.
pub proof fn updates_are_last_results<A: TestAdapter + ?Sized>(
    run: CurrentRunView<A>,
    statuses: Map<Seq<char>, TestStatus>,
    results: Seq<(Seq<char>, TestStatus)>,
    update: StatusUpdate,
)
    ensures
        state::result_updates(run, statuses, results).contains(update) <==> state::last_result(
            run,
            results,
            update.0,
        ) == Some(update.1) && !(statuses.contains_key(update.0) && statuses[update.0]
            == update.1),
{
    let f = |result: (Seq<char>, TestStatus)|
        state::result_update(run, statuses, results, result);
    let updates = state::result_updates(run, statuses, results);
    assert(updates == results.filter_map(f));
    if updates.contains(update) {
        results.lemma_filter_map_contains(f, update);
        let result = choose|t: (Seq<char>, TestStatus)| #[trigger]
            results.contains(t) && f(t) == Some(update);
        assert(state::target_result(run, result) == Some(update));
    }
    if state::last_result(run, results, update.0) == Some(update.1) && !(statuses.contains_key(
        update.0,
    ) && statuses[update.0] == update.1) {
        let i = lemma_last_result_origin(run, results, update.0);
        assert(f(results[i]) == Some(update));
        lemma_filter_map_has(results, f, i);
    }
}

/// A result for a target that no result for the same target follows is the last result of the
/// target.
pub proof fn results_with_none_after_them_are_last<A: TestAdapter + ?Sized>(
    run: CurrentRunView<A>,
    results: Seq<(Seq<char>, TestStatus)>,
    update: StatusUpdate,
    i: int,
)
    requires
        0 <= i < results.len(),
        state::target_result(run, results[i]) == Some(update),
        forall|j: int|
            i < j < results.len() ==> (state::target_result(run, #[trigger] results[j]) matches Some(
                later,
            ) ==> later.0 != update.0),
    ensures
        state::last_result(run, results, update.0) == Some(update.1),
    decreases results.len(),
{
    let last = results.len() - 1;
    if i < last {
        let earlier = results.drop_last();
        assert forall|j: int| i < j < earlier.len() implies (state::target_result(
            run,
            #[trigger] earlier[j],
        ) matches Some(later) ==> later.0 != update.0) by {
            assert(earlier[j] == results[j]);
        }
        results_with_none_after_them_are_last(run, earlier, update, i);
        assert(results[last] == results.last());
    }
}

/// Whether results agree: no two of them give one target two statuses.
pub open spec fn results_agree<A: TestAdapter + ?Sized>(
    run: CurrentRunView<A>,
    results: Seq<(Seq<char>, TestStatus)>,
) -> bool {
    forall|i: int, j: int|
        #![trigger results[i], results[j]]
        0 <= i < results.len() && 0 <= j < results.len() ==> match (
            state::target_result(run, results[i]),
            state::target_result(run, results[j]),
        ) {
            (Some(a), Some(b)) => a.0 == b.0 ==> a.1 == b.1,
            _ => true,
        }
}

/// A target of which some result speaks has a last result.
proof fn lemma_last_result_some<A: TestAdapter + ?Sized>(
    run: CurrentRunView<A>,
    results: Seq<(Seq<char>, TestStatus)>,
    i: int,
)
    requires
        0 <= i < results.len(),
        state::target_result(run, results[i]) is Some,
    ensures
        state::last_result(run, results, (state::target_result(run, results[i])->0).0) is Some,
    decreases results.len(),
{
    if i < results.len() - 1 {
        lemma_last_result_some(run, results.drop_last(), i);
    }
}

/// Where results agree, each of them that speaks of a target makes an update, unless the status
/// was known: also one that repeats another.
pub proof fn agreeing_results_are_all_taken_in<A: TestAdapter + ?Sized>(
    run: CurrentRunView<A>,
    statuses: Map<Seq<char>, TestStatus>,
    results: Seq<(Seq<char>, TestStatus)>,
)
    requires
        results_agree(run, results),
    ensures
        state::result_updates(run, statuses, results) == results.filter_map(
            |result: (Seq<char>, TestStatus)|
                match state::target_result(run, result) {
                    Some((name, status)) => if statuses.contains_key(name) && statuses[name]
                        == status {
                        None
                    } else {
                        Some((name, status))
                    },
                    None => None,
                },
        ),
{
    let f = |result: (Seq<char>, TestStatus)|
        state::result_update(run, statuses, results, result);
    let g = |result: (Seq<char>, TestStatus)|
        match state::target_result(run, result) {
            Some((name, status)) => if statuses.contains_key(name) && statuses[name] == status {
                None
            } else {
                Some((name, status))
            },
            None => None,
        };
    assert forall|i: int| 0 <= i < results.len() implies f(#[trigger] results[i]) == g(
        results[i],
    ) by {
        if state::target_result(run, results[i]) is Some {
            let name = (state::target_result(run, results[i])->0).0;
            lemma_last_result_some(run, results, i);
            let j = lemma_last_result_origin(run, results, name);
            assert(results[i] == results[i] && results[j] == results[j]);
        }
    }
    lemma_filter_map_same(results, f, g);
}

/// Functions that make the same of each element make the same of the sequence.
proof fn lemma_filter_map_same<T, U>(
    s: Seq<T>,
    f: spec_fn(T) -> Option<U>,
    g: spec_fn(T) -> Option<U>,
)
    requires
        forall|i: int| 0 <= i < s.len() ==> f(#[trigger] s[i]) == g(s[i]),
    ensures
        s.filter_map(f) == s.filter_map(g),
    decreases s.len(),
{
    if s.len() > 0 {
        let rest = s.drop_last();
        assert forall|i: int| 0 <= i < rest.len() implies f(#[trigger] rest[i]) == g(rest[i]) by {
            assert(rest[i] == s[i]);
        }
        lemma_filter_map_same(rest, f, g);
        assert(f(s[s.len() - 1]) == g(s[s.len() - 1]));
    }
}

/// The last result that the output of the current run gives to a test.
pub open spec fn output_result<A: TestAdapter + ?Sized>(
    state: ManagerView<A>,
    content: Seq<char>,
    name: Seq<char>,
) -> Option<TestStatus> {
    match state.current_run {
        Some(run) => state::last_result(run, run.adapter.spec_results(content), name),
        None => None,
    }
}

/// After an output was read, a test has the last status that the output gives it, and what it had
/// where the output gives it none.
pub proof fn the_last_result_counts<A: TestAdapter + ?Sized>(
    state: ManagerView<A>,
    content: Seq<char>,
    name: Seq<char>,
)
    ensures
        ({
            let after = state::after_output(state, content).statuses;
            match output_result(state, content, name) {
                Some(status) => after.contains_key(name) && after[name] == status,
                None => after.contains_key(name) == state.statuses.contains_key(name)
                    && after[name] == state.statuses[name],
            }
        }),
{
    let updates = state::output_updates(state, content);
    let after = state::after_output(state, content).statuses;
    updates_set_what_they_speak_of(state.statuses, updates, name);
    match state.current_run {
        Some(run) => {
            let results = run.adapter.spec_results(content);
            if speaks_of(updates, name) {
                updates_are_last_results(run, state.statuses, results, (name, after[name]));
            } else {
                match state::last_result(run, results, name) {
                    Some(status) => {
                        updates_are_last_results(run, state.statuses, results, (name, status));
                        if updates.contains((name, status)) {
                            let k = choose|k: int|
                                0 <= k < updates.len() && updates[k] == (name, status);
                            assert(updates[k].0 == name);
                        }
                    },
                    None => {},
                }
            }
        },
        None => {},
    }
}

/// Reading an output a second time changes nothing and tells nothing.
pub proof fn reading_again_changes_nothing<A: TestAdapter + ?Sized>(
    state: ManagerView<A>,
    content: Seq<char>,
)
    ensures
        state::output_updates(state::after_output(state, content), content)
            == Seq::<StatusUpdate>::empty(),
        state::after_output(state::after_output(state, content), content) == state::after_output(
            state,
            content,
        ),
{
    let after = state::after_output(state, content);
    let again = state::output_updates(after, content);
    if again.len() > 0 {
        let run = state.current_run->0;
        let results = run.adapter.spec_results(content);
        let update = again[0];
        assert(again.contains(update));
        updates_are_last_results(run, after.statuses, results, update);
        the_last_result_counts(state, content, update.0);
    }
    assert(again =~= Seq::<StatusUpdate>::empty());
    assert(state::after_output(after, content) =~= after);
}

/// However often an output was read before a run ends, the run ends with the same statuses.
pub proof fn the_end_does_not_depend_on_readings<A: TestAdapter + ?Sized>(
    state: ManagerView<A>,
    content: Seq<char>,
    success: bool,
)
    ensures
        state::after_finish(state::after_output(state, content), content, success)
            == state::after_finish(state, content, success),
{
    reading_again_changes_nothing(state, content);
}

/// Whether a name is that of a target.
pub open spec fn is_target(targets: Seq<DiscoveredTestView>, name: Seq<char>) -> bool {
    exists|i: int| 0 <= i < targets.len() && (#[trigger] targets[i]).name == name
}

/// Whether a test is a target of the current run.
pub open spec fn in_current_run<A: ?Sized>(state: ManagerView<A>, name: Seq<char>) -> bool {
    state.current_run matches Some(run) && is_target(run.targets, name)
}

/// What is found as the target of a reported name is a target that the name refers to, with
/// none before it; where nothing is found, the name refers to no target.
pub proof fn reported_names_find_their_first_target<A: TestAdapter + ?Sized>(
    adapter: Arc<A>,
    targets: Seq<DiscoveredTestView>,
    reported: Seq<char>,
    i: int,
)
    requires
        0 <= i,
    ensures
        match state::matching_target_from(adapter, targets, reported, i) {
            Some(t) => {
                &&& i <= t < targets.len()
                &&& adapter.spec_matches(targets[t].name, reported)
                &&& forall|j: int|
                    i <= j < t ==> !adapter.spec_matches((#[trigger] targets[j]).name, reported)
            },
            None => forall|j: int|
                i <= j < targets.len() ==> !adapter.spec_matches(
                    (#[trigger] targets[j]).name,
                    reported,
                ),
        },
    decreases targets.len() - i,
{
    if i < targets.len() && !adapter.spec_matches(targets[i].name, reported) {
        reported_names_find_their_first_target(adapter, targets, reported, i + 1);
    }
}

/// The output of a run changes the statuses of its targets alone.
pub proof fn output_concerns_targets_alone<A: TestAdapter + ?Sized>(
    state: ManagerView<A>,
    content: Seq<char>,
    name: Seq<char>,
)
    requires
        !in_current_run(state, name),
    ensures
        state::status_of(state::after_output(state, content).statuses, name) == state::status_of(
            state.statuses,
            name,
        ),
{
    the_last_result_counts(state, content, name);
    if output_result(state, content, name) is Some {
        let run = state.current_run->0;
        let results = run.adapter.spec_results(content);
        let i = lemma_last_result_origin(run, results, name);
        reported_names_find_their_first_target(run.adapter, run.targets, results[i].0, 0);
        let t = state::matching_target_from(run.adapter, run.targets, results[i].0, 0)->0;
        assert(run.targets[t].name == name);
    }
}

/// What the updates at the end of a run are: one for each target that still counts as running,
/// and no others.
proof fn lemma_unresolved_updates<A: TestAdapter + ?Sized>(
    state: ManagerView<A>,
    success: bool,
    name: Seq<char>,
)
    ensures
        speaks_of(state::unresolved_updates(state, success), name) <==> in_current_run(state, name)
            && state::status_of(state.statuses, name) == TestStatus::Running,
        forall|k: int|
            0 <= k < state::unresolved_updates(state, success).len() ==> (
            #[trigger] state::unresolved_updates(state, success)[k]).1 == state::fallback_status(
                (state.current_run->0).targets.len(),
                success,
            ),
{
    let updates = state::unresolved_updates(state, success);
    match state.current_run {
        Some(run) => {
            let fallback = state::fallback_status(run.targets.len(), success);
            let f = |target: DiscoveredTestView|
                state::unresolved_update(state.statuses, fallback, target);
            assert(updates == run.targets.filter_map(f));
            assert forall|k: int| 0 <= k < updates.len() implies (#[trigger] updates[k]).1
                == fallback && is_target(run.targets, updates[k].0) && state::status_of(
                state.statuses,
                updates[k].0,
            ) == TestStatus::Running by {
                assert(updates.contains(updates[k]));
                run.targets.lemma_filter_map_contains(f, updates[k]);
                let t = choose|t: DiscoveredTestView| #[trigger]
                    run.targets.contains(t) && f(t) == Some(updates[k]);
                let i = choose|i: int| 0 <= i < run.targets.len() && run.targets[i] == t;
                assert(run.targets[i].name == updates[k].0);
            }
            if is_target(run.targets, name) && state::status_of(state.statuses, name)
                == TestStatus::Running {
                let i = choose|i: int|
                    0 <= i < run.targets.len() && (#[trigger] run.targets[i]).name == name;
                lemma_filter_map_has(run.targets, f, i);
                let k = choose|k: int| 0 <= k < updates.len() && updates[k] == (name, fallback);
                assert(updates[k].0 == name);
            }
        },
        None => {},
    }
}

/// When a run ends, each target that the output left running gets its status from the exit
/// status, as far as that tells it, and every other test keeps the status that the output left
/// it.
pub proof fn finish_settles_what_the_output_left_running<A: TestAdapter + ?Sized>(
    state: ManagerView<A>,
    content: Seq<char>,
    success: bool,
    name: Seq<char>,
)
    ensures
        ({
            let read = state::status_of(state::after_output(state, content).statuses, name);
            let settled = state::status_of(
                state::after_finish(state, content, success).statuses,
                name,
            );
            if in_current_run(state, name) && read == TestStatus::Running {
                settled == state::fallback_status((state.current_run->0).targets.len(), success)
            } else {
                settled == read
            }
        }),
{
    let read = state::after_output(state, content);
    let updates = state::unresolved_updates(read, success);
    lemma_unresolved_updates(read, success, name);
    updates_set_what_they_speak_of(read.statuses, updates, name);
    if speaks_of(updates, name) {
        let after = state::after_finish(state, content, success).statuses;
        let k = choose|k: int| 0 <= k < updates.len() && updates[k] == (name, after[name]);
        assert(updates[k].1 == after[name]);
    }
}

/// When a run has ended, none of its targets counts as running.
pub proof fn no_target_runs_after_the_end<A: TestAdapter + ?Sized>(
    state: ManagerView<A>,
    content: Seq<char>,
    success: bool,
    name: Seq<char>,
)
    requires
        in_current_run(state, name),
    ensures
        state::status_of(state::after_finish(state, content, success).statuses, name)
            != TestStatus::Running,
{
    finish_settles_what_the_output_left_running(state, content, success, name);
}

/// The exit status tells the outcome of a run of one test of which the output said nothing.
pub proof fn exit_status_tells_for_a_single_test<A: TestAdapter + ?Sized>(
    state: ManagerView<A>,
    content: Seq<char>,
    success: bool,
)
    requires
        state.current_run is Some,
        (state.current_run->0).targets.len() == 1,
        state::status_of(
            state::after_output(state, content).statuses,
            (state.current_run->0).targets[0].name,
        ) == TestStatus::Running,
    ensures
        state::status_of(
            state::after_finish(state, content, success).statuses,
            (state.current_run->0).targets[0].name,
        ) == (if success {
            TestStatus::Passed
        } else {
            TestStatus::Failed
        }),
{
    let name = (state.current_run->0).targets[0].name;
    assert(is_target((state.current_run->0).targets, name));
    finish_settles_what_the_output_left_running(state, content, success, name);
}

/// The exit status says nothing of the tests of a larger run: those of which the output said
/// nothing count as not run, whatever it was.
pub proof fn exit_status_tells_nothing_for_several_tests<A: TestAdapter + ?Sized>(
    state: ManagerView<A>,
    content: Seq<char>,
    name: Seq<char>,
)
    requires
        in_current_run(state, name),
        (state.current_run->0).targets.len() != 1,
    ensures
        state::after_finish(state, content, true) == state::after_finish(state, content, false),
        state::status_of(state::after_output(state, content).statuses, name)
            == TestStatus::Running ==> state::status_of(
            state::after_finish(state, content, true).statuses,
            name,
        ) == TestStatus::NotRun,
{
    finish_settles_what_the_output_left_running(state, content, true, name);
}

/// When a run is taken up, no test counts as running any more, and every other status stays.
pub proof fn taking_up_a_run_halts_the_others<A: ?Sized>(
    state: ManagerView<A>,
    run: PreparedRunView<A>,
    name: Seq<char>,
)
    ensures
        ({
            let before = state::status_of(state.statuses, name);
            let after = state::status_of(state::after_execute(state, run).statuses, name);
            if before == TestStatus::Running {
                after == TestStatus::NotRun
            } else {
                after == before
            }
        }),
{
}

/// When a run has started, its targets count as running, and every other status stays.
pub proof fn starting_a_run_marks_its_targets<A: ?Sized>(
    state: ManagerView<A>,
    run: PreparedRunView<A>,
    terminal: TerminalId,
    name: Seq<char>,
)
    ensures
        ({
            let before = state::status_of(state.statuses, name);
            let after = state::status_of(state::after_start(state, run, terminal).statuses, name);
            if is_target(run.targets, name) {
                after == TestStatus::Running
            } else {
                after == before
            }
        }),
{
    let updates = state::started_updates(run.targets);
    updates_set_what_they_speak_of(state.statuses, updates, name);
    if is_target(run.targets, name) {
        let i = choose|i: int| 0 <= i < run.targets.len() && (#[trigger] run.targets[i]).name
            == name;
        assert(updates[i].0 == name);
    }
    if speaks_of(updates, name) {
        let k = choose|k: int| 0 <= k < updates.len() && (#[trigger] updates[k]).0 == name;
        assert(run.targets[k].name == name);
        let after = state::after_start(state, run, terminal).statuses;
        let v = choose|v: int| 0 <= v < updates.len() && updates[v] == (name, after[name]);
        assert(updates[v].1 == TestStatus::Running);
    }
}

/// A test whose status an output changes to passed or failed is told about, and what is told of a
/// test is the last status that the output gives it, which is its status from now on.
pub proof fn events_tell_the_statuses<A: TestAdapter + ?Sized>(
    state: ManagerView<A>,
    content: Seq<char>,
    name: Seq<char>,
)
    ensures
        ({
            let before = state::status_of(state.statuses, name);
            let after = state::status_of(state::after_output(state, content).statuses, name);
            let events = state::update_events(state::output_updates(state, content));
            &&& events.contains(TestRunEventView::TestPassed(name)) <==> after
                == TestStatus::Passed && before != after
            &&& events.contains(TestRunEventView::TestFailed(name)) <==> after
                == TestStatus::Failed && before != after
        }),
{
    lemma_told_status(state, content, name, TestStatus::Passed);
    lemma_told_status(state, content, name, TestStatus::Failed);
}

/// A status that is worth an event is told of a test exactly where an output changes the test's
/// status to it.
proof fn lemma_told_status<A: TestAdapter + ?Sized>(
    state: ManagerView<A>,
    content: Seq<char>,
    name: Seq<char>,
    status: TestStatus,
)
    requires
        status == TestStatus::Passed || status == TestStatus::Failed,
    ensures
        state::update_events(state::output_updates(state, content)).contains(
            state::update_event((name, status))->0,
        ) <==> state::status_of(state::after_output(state, content).statuses, name) == status
            && state::status_of(state.statuses, name) != status,
{
    let updates = state::output_updates(state, content);
    let events = state::update_events(updates);
    let f = |update: StatusUpdate| state::update_event(update);
    let event = state::update_event((name, status))->0;
    the_last_result_counts(state, content, name);
    match state.current_run {
        Some(run) => {
            let results = run.adapter.spec_results(content);
            updates_are_last_results(run, state.statuses, results, (name, status));
            if events.contains(event) {
                updates.lemma_filter_map_contains(f, event);
                let update = choose|u: StatusUpdate| #[trigger]
                    updates.contains(u) && f(u) == Some(event);
                assert(update == (name, status));
            }
            if updates.contains((name, status)) {
                let k = choose|k: int| 0 <= k < updates.len() && updates[k] == (name, status);
                lemma_filter_map_has(updates, f, k);
            }
        },
        None => {
            assert(events =~= Seq::<TestRunEventView>::empty());
        },
    }
}

/// When another buffer becomes active, nothing is known of any test.
pub proof fn another_buffer_forgets_the_results<A: ?Sized>(
    state: ManagerView<A>,
    buffer: Option<BufferId>,
    alive: bool,
    name: Seq<char>,
)
    requires
        buffer != state::live_buffer(state, alive),
    ensures
        state::status_of(state::after_buffer_change(state, buffer, alive).statuses, name)
            == TestStatus::NotRun,
        state::after_buffer_change(state, buffer, alive).buffer == buffer,
{
}

/// Making the active buffer active again changes nothing, once it exists; nor does it when there
/// is none.
pub proof fn the_same_buffer_changes_nothing<A: ?Sized>(
    state: ManagerView<A>,
    buffer: Option<BufferId>,
    alive: bool,
)
    ensures
        ({
            let after = state::after_buffer_change(state, buffer, alive);
            state::after_buffer_change(after, buffer, buffer is Some || alive) == after
        }),
{
}

/// What happens to a manager.
pub enum Change<A: ?Sized> {
    /// A buffer became active, or none.
    Pointed { to: Option<BufferId>, alive: bool },
    /// The runnables of a buffer were found.
    Discovered { buffer: BufferId, runnables: Seq<RunnableView> },
    /// A run of a single test was asked for.
    TestAsked { index: int, alive: bool },
    /// A run of all the tests was asked for.
    FileAsked { alive: bool },
    /// The last run was asked for once more.
    Rerun,
    /// A run that was asked for began.
    Begun { request: RunRequestView<A>, task_status: Option<TaskStatus> },
    /// Something happened to a run.
    Resumed { task: RunTaskView<A>, event: RunEventView, task_status: Option<TaskStatus> },
    /// A run was taken up.
    TakenUp { run: PreparedRunView<A> },
    /// The terminal of a run was started.
    Started { run: PreparedRunView<A>, terminal: TerminalId },
    /// The output of the current run was read.
    Read { content: Seq<char> },
    /// The current run ended.
    Ended { content: Seq<char>, success: bool },
    /// A run came to nothing.
    Failed { error: RunErrorView },
}

/// What a change makes of a state.
pub open spec fn changed<A: TestAdapter + ?Sized>(
    state: ManagerView<A>,
    change: Change<A>,
) -> ManagerView<A> {
    match change {
        Change::Pointed { to, alive } => state::after_buffer_change(state, to, alive),
        Change::Discovered { buffer, runnables } => state::after_discovery(
            state,
            buffer,
            runnables,
        ),
        Change::TestAsked { index, alive } => state::after_request(
            state,
            state::requested_test(state, index, alive),
        ),
        Change::FileAsked { alive } => state::after_request(
            state,
            state::requested_run(state, RunKind::File, state.discovered, alive),
        ),
        Change::Rerun => state::after_rerun(state),
        Change::Begun { request, task_status } => run_task::run_resolved(
            state,
            resolve::first_step(request),
            task_status,
        ).0,
        Change::Resumed { task, event, task_status } => run_task::run_step(
            state,
            task,
            event,
            task_status,
        ).0,
        Change::TakenUp { run } => state::after_execute(state, run),
        Change::Started { run, terminal } => state::after_start(state, run, terminal),
        Change::Read { content } => state::after_output(state, content),
        Change::Ended { content, success } => state::after_finish(state, content, success),
        Change::Failed { error } => state::after_error(state, error),
    }
}

/// The state that changes lead to, one after the other.
pub open spec fn reached<A: TestAdapter + ?Sized>(
    state: ManagerView<A>,
    changes: Seq<Change<A>>,
) -> ManagerView<A>
    decreases changes.len(),
{
    if changes.len() == 0 {
        state
    } else {
        changed(reached(state, changes.drop_last()), changes.last())
    }
}

/// Whether a change takes a run up.
pub open spec fn takes_up_a_run<A: TestAdapter + ?Sized>(change: Change<A>) -> bool {
    match change {
        Change::TakenUp { run } => true,
        Change::Resumed { task: RunTaskView::Resolving { resolution }, event, task_status } =>
            event matches RunEventView::Replied { reply } && resolve::next_step(
            resolution,
            reply,
        ) is Ready,
        _ => false,
    }
}

/// Whatever happens that takes up no run, the run to repeat stays.
pub proof fn the_last_run_stays_until_another_is_taken_up<A: TestAdapter + ?Sized>(
    state: ManagerView<A>,
    changes: Seq<Change<A>>,
)
    requires
        forall|i: int| 0 <= i < changes.len() ==> !takes_up_a_run(#[trigger] changes[i]),
    ensures
        reached(state, changes).last_run == state.last_run,
    decreases changes.len(),
{
    if changes.len() > 0 {
        let earlier = changes.drop_last();
        assert forall|i: int| 0 <= i < earlier.len() implies !takes_up_a_run(
            #[trigger] earlier[i],
        ) by {
            assert(earlier[i] == changes[i]);
        }
        the_last_run_stays_until_another_is_taken_up(state, earlier);
        assert(!takes_up_a_run(changes[changes.len() - 1]));
    }
}

/// A rerun repeats the run that was taken up last, whatever happened since that took up no other:
/// the same command, the same targets, and the same adapter.
pub proof fn reruns_repeat_the_last_command<A: TestAdapter + ?Sized>(
    state: ManagerView<A>,
    run: PreparedRunView<A>,
    changes: Seq<Change<A>>,
    status: Option<TaskStatus>,
)
    requires
        forall|i: int| 0 <= i < changes.len() ==> !takes_up_a_run(#[trigger] changes[i]),
    ensures
        ({
            let later = reached(state::after_execute(state, run), changes);
            let asked = state::after_rerun(later);
            let (again, step) = run_task::run_taken_up(asked, later.last_run->0, status);
            &&& later.last_run == Some(run)
            &&& step.task == Some(RunTaskView::Starting { run })
            &&& step.action == RunActionView::Spawn {
                kill: state::running_terminal(later, status),
                spawn: run.spawn,
            }
            &&& again.last_run == Some(run)
        }),
{
    the_last_run_stays_until_another_is_taken_up(state::after_execute(state, run), changes);
}

/// In every state that a manager reaches, each test in the list can be run by an adapter, and
/// without a buffer the list is empty.
pub proof fn the_list_holds_in_every_state<A: TestAdapter + ?Sized>(
    adapters: Seq<Arc<A>>,
    changes: Seq<Change<A>>,
)
    ensures
        ({
            let state = reached(state::initial_state(adapters), changes);
            &&& state.adapters == adapters
            &&& state::list_holds(adapters, state.buffer, state.discovered)
            &&& forall|i: int|
                0 <= i < state.discovered.len() ==> discovery::first_adapter(
                    adapters,
                    (#[trigger] state.discovered[i]).tag,
                ) is Some
        }),
    decreases changes.len(),
{
    let state = reached(state::initial_state(adapters), changes);
    if changes.len() > 0 {
        the_list_holds_in_every_state(adapters, changes.drop_last());
        match changes.last() {
            Change::Discovered { buffer, runnables } => discovery::lemma_discovered_tags(
                adapters,
                runnables,
            ),
            _ => {},
        }
    }
    assert forall|i: int| 0 <= i < state.discovered.len() implies discovery::first_adapter(
        adapters,
        (#[trigger] state.discovered[i]).tag,
    ) is Some by {
        discovery::lemma_first_adapter(adapters, state.discovered[i].tag);
    }
}

/// Whether a change makes a buffer active.
pub open spec fn activates_buffer<A: ?Sized>(change: Change<A>) -> bool {
    change matches Change::Pointed { to, alive } && to is Some
}

/// Once there is no active buffer any more, the list is empty until a buffer becomes active,
/// whatever discovery finishes in between. The buffer that was active must still exist: one that
/// is gone counts as none already.
pub proof fn nothing_is_listed_until_a_buffer_is_active<A: TestAdapter + ?Sized>(
    adapters: Seq<Arc<A>>,
    before: Seq<Change<A>>,
    alive: bool,
    after: Seq<Change<A>>,
)
    requires
        alive || reached(state::initial_state(adapters), before).buffer is None,
        forall|i: int| 0 <= i < after.len() ==> !activates_buffer(#[trigger] after[i]),
    ensures
        ({
            let cleared = changed(
                reached(state::initial_state(adapters), before),
                Change::Pointed { to: None, alive },
            );
            let state = reached(cleared, after);
            state.buffer is None && state.discovered.len() == 0
        }),
    decreases after.len(),
{
    if after.len() == 0 {
        the_list_holds_in_every_state(adapters, before);
    } else {
        let earlier = after.drop_last();
        assert forall|i: int| 0 <= i < earlier.len() implies !activates_buffer(
            #[trigger] earlier[i],
        ) by {
            assert(earlier[i] == after[i]);
        }
        nothing_is_listed_until_a_buffer_is_active(adapters, before, alive, earlier);
        assert(!activates_buffer(after[after.len() - 1]));
    }
}

/// What was found in a buffer that is not the active one changes nothing and tells nothing.
pub proof fn late_discoveries_are_dropped<A: TestAdapter + ?Sized>(
    state: ManagerView<A>,
    buffer: BufferId,
    runnables: Seq<RunnableView>,
)
    requires
        state.buffer != Some(buffer),
    ensures
        state::after_discovery(state, buffer, runnables) == state,
        state::discovery_effects(state, buffer) == run_task::nothing_told(),
{
}

/// In every state that a manager reaches, a single test of the list can be asked for as long as
/// there is a buffer, and so can the whole file if there is a test.
pub proof fn discovered_tests_can_be_run<A: TestAdapter + ?Sized>(
    adapters: Seq<Arc<A>>,
    changes: Seq<Change<A>>,
    alive: bool,
    index: int,
)
    requires
        state::live_buffer(reached(state::initial_state(adapters), changes), alive) is Some,
        0 <= index < reached(state::initial_state(adapters), changes).discovered.len(),
    ensures
        ({
            let state = reached(state::initial_state(adapters), changes);
            let request = state::requested_test(state, index, alive);
            &&& request is Some
            &&& (request->0).targets == seq![state.discovered[index]]
            &&& (request->0).adapter.spec_tags().contains(state.discovered[index].tag)
            &&& adapters.contains((request->0).adapter)
            &&& state::requested_run(state, RunKind::File, state.discovered, alive) is Some
        }),
{
    let state = reached(state::initial_state(adapters), changes);
    the_list_holds_in_every_state(adapters, changes);
    discovery::lemma_first_adapter(adapters, state.discovered[index].tag);
    discovery::lemma_first_adapter(adapters, state.discovered[0].tag);
}

/// A runnable is discovered as a test exactly where an adapter's tag marks it.
pub proof fn tagged_runnables_are_tests<A: TestAdapter + ?Sized>(
    adapters: Seq<Arc<A>>,
    runnable: RunnableView,
)
    ensures
        discovery::runnable_test(adapters, runnable) is Some <==> exists|i: int|
            0 <= i < runnable.tags.len() && discovery::marks_test(
                adapters,
                #[trigger] runnable.tags[i],
            ),
{
    discovery::lemma_first_test_tag(adapters, runnable.tags);
    match discovery::first_test_tag(adapters, runnable.tags) {
        Some(tag) => {
            let i = choose|i: int| 0 <= i < runnable.tags.len() && runnable.tags[i] == tag;
            assert(discovery::marks_test(adapters, runnable.tags[i]));
        },
        None => {},
    }
}

/// Resolution keeps the targets, each as often as it was there.
pub proof fn resolution_keeps_the_targets(
    tags: Seq<Seq<char>>,
    targets: Seq<DiscoveredTestView>,
)
    ensures
        resolve::resolution_order(tags, targets).len() == targets.len(),
        resolve::resolution_order(tags, targets).to_multiset() == targets.to_multiset(),
{
    if tags.len() > 0 {
        lemma_tagged_target(targets, tags[0], 0);
        match resolve::tagged_target_from(targets, tags[0], 0) {
            Some(i) => lemma_exchange(targets, i),
            None => {},
        }
    }
}

/// Resolution goes through a plain test function, if there is one among the targets.
pub proof fn resolution_prefers_plain_tests(
    tags: Seq<Seq<char>>,
    targets: Seq<DiscoveredTestView>,
    i: int,
)
    requires
        tags.len() > 0,
        0 <= i < targets.len(),
        targets[i].tag == tags[0],
    ensures
        resolve::resolution_order(tags, targets)[0].tag == tags[0],
{
    lemma_tagged_target(targets, tags[0], 0);
}

/// What is found through a tag is the first target with the tag, from `i` on.
proof fn lemma_tagged_target(targets: Seq<DiscoveredTestView>, tag: Seq<char>, i: int)
    requires
        0 <= i,
    ensures
        match resolve::tagged_target_from(targets, tag, i) {
            Some(t) => {
                &&& i <= t < targets.len()
                &&& targets[t].tag == tag
                &&& forall|j: int| i <= j < t ==> (#[trigger] targets[j]).tag != tag
            },
            None => forall|j: int| i <= j < targets.len() ==> (#[trigger] targets[j]).tag != tag,
        },
    decreases targets.len() - i,
{
    if i < targets.len() && targets[i].tag != tag {
        lemma_tagged_target(targets, tag, i + 1);
    }
}

/// Exchanging two elements keeps the elements.
proof fn lemma_exchange(targets: Seq<DiscoveredTestView>, i: int)
    requires
        0 <= i < targets.len(),
    ensures
        targets.update(0, targets[i]).update(i, targets[0]).to_multiset() == targets.to_multiset(),
{
    broadcast use vstd::seq_lib::group_to_multiset_ensures;

    let once = targets.update(0, targets[i]);
    assert(once.update(i, targets[0]).to_multiset() =~= targets.to_multiset());
}

/// A run for which every question is answered goes its course: its command is the resolved one,
/// shaped by the adapter for the targets in the order of resolution; what ran before is killed
/// when the run is taken up, and not before; its targets are those of the current run once its
/// terminal was started; and its end is told.
pub proof fn answered_runs_go_their_course<A: TestAdapter + ?Sized>(
    state: ManagerView<A>,
    request: RunRequestView<A>,
    templates: Seq<Seq<Seq<char>>>,
    spawn: SpawnView,
    status: Option<TaskStatus>,
    terminal: TerminalId,
    content: Seq<char>,
    exit_success: Option<bool>,
)
    requires
        request.targets.len() > 0,
        resolve::tagged_template(
            templates,
            resolve::resolution_order(request.adapter.spec_tags(), request.targets)[0].tag,
        ) is Some,
    ensures
        ({
            let targets = resolve::resolution_order(request.adapter.spec_tags(), request.targets);
            let run = PreparedRunView {
                spawn: request.adapter.spec_prepare(request.kind, targets, spawn),
                targets,
                adapter: request.adapter,
            };
            let (asked_state, asked) = run_task::run_resolved(
                state,
                resolve::first_step(request),
                status,
            );
            let listed = RunEventView::Replied {
                reply: ResolveReplyView::Templates { templates: Some(templates) },
            };
            let (chosen_state, chosen) = run_task::run_step(
                asked_state,
                asked.task->0,
                listed,
                status,
            );
            let found = RunEventView::Replied { reply: ResolveReplyView::Context { found: true } };
            let (placed_state, placed) = run_task::run_step(
                chosen_state,
                chosen.task->0,
                found,
                status,
            );
            let resolved = RunEventView::Replied {
                reply: ResolveReplyView::Task { resolved: Some(spawn) },
            };
            let (taken_state, taken) = run_task::run_step(
                placed_state,
                placed.task->0,
                resolved,
                status,
            );
            let opened = RunEventView::TerminalStarted { terminal };
            let (started_state, started) = run_task::run_step(
                taken_state,
                taken.task->0,
                opened,
                status,
            );
            let completed = RunEventView::Completed { content, exit_success };
            let (ended_state, ended) = run_task::run_step(
                started_state,
                started.task->0,
                completed,
                status,
            );
            &&& asked.action == (RunActionView::Ask {
                request: ResolveRequestView::ListTemplates { buffer: request.buffer },
            })
            &&& placed.action is Ask
            &&& placed.action->request is ResolveTemplate
            &&& chosen.action == (RunActionView::Ask {
                request: ResolveRequestView::BuildContext {
                    template: resolve::tagged_template(templates, targets[0].tag)->0,
                    variables: targets[0].extra_captures,
                    buffer: request.buffer,
                    start: targets[0].range.start,
                    end: targets[0].range.start,
                },
            })
            &&& asked.task is Some && run_task::in_turn(asked.task->0, listed)
            &&& chosen.task is Some && run_task::in_turn(chosen.task->0, found)
            &&& placed.task is Some && run_task::in_turn(placed.task->0, resolved)
            &&& placed_state == state
            &&& taken_state == state::after_execute(state, run)
            &&& taken.action == RunActionView::Spawn {
                kill: state::running_terminal(state, status),
                spawn: run.spawn,
            }
            &&& taken.task is Some && run_task::in_turn(taken.task->0, opened)
            &&& started_state.current_run == Some(
                CurrentRunView { terminal, adapter: request.adapter, targets },
            )
            &&& started.task is Some && run_task::in_turn(started.task->0, completed)
            &&& ended.task is None
            &&& ended.effects.events.last() == TestRunEventView::RunFinished {
                success: exit_success == Some(true),
            }
            &&& ended_state.last_run == Some(run)
        }),
{
    resolution_keeps_the_targets(request.adapter.spec_tags(), request.targets);
}

/// Whether a reply is one that the run cannot go on with.
pub open spec fn stops_resolution<A: TestAdapter + ?Sized>(
    resolution: ResolutionView<A>,
    reply: ResolveReplyView,
) -> bool {
    match (resolution.stage, reply) {
        (ResolveStage::Templates, ResolveReplyView::Templates { templates: Some(templates) }) =>
            resolve::tagged_template(templates, resolution.request.targets[0].tag) is None,
        (ResolveStage::Context { template }, ResolveReplyView::Context { found }) => !found,
        (ResolveStage::Task { template }, ResolveReplyView::Task { resolved }) => resolved is None,
        _ => true,
    }
}

/// A reply with which a run cannot go on ends the run: the user is told why, and nothing else
/// changes; in particular the run that ran before goes on. Every other reply leads on.
pub proof fn refused_questions_end_the_run<A: TestAdapter + ?Sized>(
    state: ManagerView<A>,
    resolution: ResolutionView<A>,
    reply: ResolveReplyView,
    status: Option<TaskStatus>,
)
    ensures
        ({
            let (after, step) = run_task::run_step(
                state,
                RunTaskView::Resolving { resolution },
                RunEventView::Replied { reply },
                status,
            );
            if stops_resolution(resolution, reply) {
                &&& step.task is None
                &&& step.action == RunActionView::Nothing
                &&& after.error is Some
                &&& after == (ManagerView { error: after.error, ..state })
            } else {
                &&& step.task is Some
                &&& after.error == state.error
            }
        }),
{
}

/// An event that comes out of turn ends the run, changes nothing else and tells nothing.
pub proof fn events_out_of_turn_end_the_run<A: TestAdapter + ?Sized>(
    state: ManagerView<A>,
    task: RunTaskView<A>,
    event: RunEventView,
    status: Option<TaskStatus>,
)
    requires
        !run_task::in_turn(task, event),
    ensures
        ({
            let (after, step) = run_task::run_step(state, task, event, status);
            &&& after == state
            &&& step.task is None
            &&& step.action == RunActionView::Nothing
            &&& step.effects == run_task::nothing_told()
        }),
{
}

/// The last result that the output reports of a target becomes its status, and stays its status
/// when the run ends.
pub proof fn reported_results_become_statuses<A: TestAdapter + ?Sized>(
    state: ManagerView<A>,
    content: Seq<char>,
    success: bool,
    name: Seq<char>,
)
    ensures
        output_result(state, content, name) matches Some(status) ==> {
            &&& state::status_of(state::after_output(state, content).statuses, name) == status
            &&& status != TestStatus::Running ==> state::status_of(
                state::after_finish(state, content, success).statuses,
                name,
            ) == status
        },
{
    the_last_result_counts(state, content, name);
    finish_settles_what_the_output_left_running(state, content, success, name);
}

/// A run of one test whose output says nothing of it, from the moment it is taken up to its end:
/// the test passed if the process succeeded, and failed otherwise.
pub proof fn silent_single_runs_end_as_their_process_did<A: TestAdapter + ?Sized>(
    state: ManagerView<A>,
    run: PreparedRunView<A>,
    terminal: TerminalId,
    content: Seq<char>,
    success: bool,
)
    requires
        run.targets.len() == 1,
        forall|i: int|
            0 <= i < run.adapter.spec_results(content).len() ==> !run.adapter.spec_matches(
                run.targets[0].name,
                (#[trigger] run.adapter.spec_results(content)[i]).0,
            ),
    ensures
        ({
            let started = state::after_start(state::after_execute(state, run), run, terminal);
            let ended = state::after_finish(started, content, success);
            &&& state::status_of(started.statuses, run.targets[0].name) == TestStatus::Running
            &&& state::status_of(ended.statuses, run.targets[0].name) == (if success {
                TestStatus::Passed
            } else {
                TestStatus::Failed
            })
        }),
{
    let taken = state::after_execute(state, run);
    let started = state::after_start(taken, run, terminal);
    let current = started.current_run->0;
    let name = run.targets[0].name;
    let results = run.adapter.spec_results(content);
    assert(is_target(run.targets, name));
    starting_a_run_marks_its_targets(taken, run, terminal, name);
    the_last_result_counts(started, content, name);
    if output_result(started, content, name) is Some {
        let i = lemma_last_result_origin(current, results, name);
        reported_names_find_their_first_target(current.adapter, current.targets, results[i].0, 0);
    }
    exit_status_tells_for_a_single_test(started, content, success);
}

} // verus!
