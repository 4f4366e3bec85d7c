//! What the mathematical values of the library's types tell of them: everything that the fields
//! hold.

use vstd::prelude::*;

use crate::adapter;
use crate::adapter::{DiscoveredTest, SpawnInTerminal, TestStatus};
use crate::discovery;
use crate::discovery::Runnable;
use crate::manager;
use crate::names;
use crate::resolve;
use crate::resolve::{
    ResolveReply, ResolveReplyView, ResolveRequest, ResolveRequestView, ResolveStep,
    ResolveStepView, RunError, RunErrorView, TaskTemplate,
};
use crate::run;
use crate::run::{
    CurrentRun, Effects, PreparedRun, RunRequest, TestRunEvent, TestRunEventView,
};
use crate::run_task::{
    RunAction, RunActionView, RunEvent, RunEventView, RunStep, RunTask, RunTaskView,
};
use crate::test_panel;
use crate::test_panel::TestEntry;

verus! {

/// A test is told by all of its fields, and a list of tests test by test.
pub proof fn tests_are_told_by_their_fields(tests: Seq<DiscoveredTest>, i: int)
    requires
        0 <= i < tests.len(),
    ensures
        adapter::test_views(tests).len() == tests.len(),
        adapter::test_views(tests)[i].name == tests[i].name@,
        adapter::test_views(tests)[i].tag == tests[i].tag@,
        adapter::test_views(tests)[i].range == tests[i].range,
        adapter::test_views(tests)[i].extra_captures == tests[i].extra_captures@,
{
}

/// A command is told by all of its fields.
pub proof fn commands_are_told_by_their_fields(spawn: SpawnInTerminal)
    ensures
        spawn@.command == spawn.command,
        spawn@.label == spawn.label@,
        spawn@.full_label == spawn.full_label@,
        spawn@.args.len() == spawn.args@.len(),
        forall|i: int| 0 <= i < spawn.args@.len() ==> #[trigger] spawn@.args[i] == spawn.args@[i]@,
{
}

/// Strings, tags, results and updates are told one by one.
pub proof fn lists_are_told_one_by_one(
    strings: Seq<String>,
    tags: Seq<&'static str>,
    results: Seq<(String, TestStatus)>,
    i: int,
)
    ensures
        adapter::string_views(strings).len() == strings.len(),
        adapter::tag_views(tags).len() == tags.len(),
        adapter::result_views(results).len() == results.len(),
        manager::update_views(results).len() == results.len(),
        0 <= i < strings.len() ==> adapter::string_views(strings)[i] == strings[i]@,
        0 <= i < tags.len() ==> adapter::tag_views(tags)[i] == tags[i]@,
        0 <= i < results.len() ==> adapter::result_views(results)[i] == (
            results[i].0@,
            results[i].1,
        ),
        0 <= i < results.len() ==> manager::update_views(results)[i] == (
            results[i].0@,
            results[i].1,
        ),
{
}

/// A runnable is told by all of its fields.
pub proof fn runnables_are_told_by_their_fields(runnables: Seq<Runnable>, i: int)
    requires
        0 <= i < runnables.len(),
    ensures
        ({
            let view = discovery::runnable_views(runnables)[i];
            let tags = runnables[i].tags@;
            &&& discovery::runnable_views(runnables).len() == runnables.len()
            &&& view.name == runnables[i].name@
            &&& view.range == runnables[i].range
            &&& view.extra_captures == runnables[i].extra_captures@
            &&& view.tags.len() == tags.len()
            &&& forall|t: int| 0 <= t < tags.len() ==> #[trigger] view.tags[t] == tags[t]@
        }),
{
}

/// An event is told as what it is, under the name of its test.
pub proof fn events_are_told_as_they_are(event: TestRunEvent)
    ensures
        match event {
            TestRunEvent::DiscoveryUpdated => event@ == TestRunEventView::DiscoveryUpdated,
            TestRunEvent::RunStarted => event@ == TestRunEventView::RunStarted,
            TestRunEvent::TestStarted(name) => event@ == TestRunEventView::TestStarted(name@),
            TestRunEvent::TestPassed(name) => event@ == TestRunEventView::TestPassed(name@),
            TestRunEvent::TestFailed(name) => event@ == TestRunEventView::TestFailed(name@),
            TestRunEvent::RunFinished { success } => event@ == (TestRunEventView::RunFinished {
                success,
            }),
        },
{
}

/// Effects are told by all of their events, in their order, and by whether observers are notified.
pub proof fn effects_are_told_by_their_events(effects: Effects)
    ensures
        effects@.notify == effects.notify,
        effects@.events == run::event_views(effects.events@),
        effects@.events.len() == effects.events@.len(),
        forall|i: int|
            0 <= i < effects.events@.len() ==> #[trigger] effects@.events[i]
                == effects.events@[i]@,
{
}

/// Runs are told by all of their fields.
pub proof fn runs_are_told_by_their_fields<A: ?Sized>(
    request: RunRequest<A>,
    prepared: PreparedRun<A>,
    current: CurrentRun<A>,
)
    ensures
        request@.kind == request.kind,
        request@.buffer == request.buffer,
        request@.targets == adapter::test_views(request.targets@),
        request@.adapter == request.adapter,
        prepared@.spawn == prepared.spawn@,
        prepared@.targets == adapter::test_views(prepared.targets@),
        prepared@.adapter == prepared.adapter,
        current@.terminal == current.terminal,
        current@.adapter == current.adapter,
        current@.targets == adapter::test_views(current.targets@),
{
}

/// Templates are told by their tags, one after the other.
pub proof fn templates_are_told_by_their_tags(templates: Seq<TaskTemplate>, i: int, t: int)
    requires
        0 <= i < templates.len(),
    ensures
        resolve::template_views(templates).len() == templates.len(),
        resolve::template_views(templates)[i].len() == templates[i].tags@.len(),
        0 <= t < templates[i].tags@.len() ==> resolve::template_views(templates)[i][t]
            == templates[i].tags@[t]@,
{
}

/// A question is told with everything that is asked.
pub proof fn questions_are_told_in_full(request: ResolveRequest)
    ensures
        match request {
            ResolveRequest::ListTemplates { buffer } => request@ == (
            ResolveRequestView::ListTemplates { buffer }),
            ResolveRequest::BuildContext { template, variables, location } => request@ == (
            ResolveRequestView::BuildContext {
                template: template as int,
                variables: variables.custom@,
                buffer: location.buffer,
                start: location.range.start,
                end: location.range.end,
            }),
            ResolveRequest::ResolveTemplate { template } => request@ == (
            ResolveRequestView::ResolveTemplate { template: template as int }),
        },
{
}

/// A step of a run is told by its task, its action and its effects.
pub proof fn steps_are_told_by_their_fields<A: ?Sized>(step: RunStep<A>)
    ensures
        step@.action == step.action@,
        step@.effects == step.effects@,
        match step.task {
            Some(task) => step@.task == Some(task@),
            None => step@.task is None,
        },
{
}

/// Optional values are told as what they are.
pub proof fn options_are_told_as_they_are<T: View>(value: Option<T>)
    ensures
        match value {
            Some(some) => manager::option_view(value) == Some(some@),
            None => manager::option_view(value) is None,
        },
{
}

/// A row is told by all of its fields, and rows are told one by one.
pub proof fn rows_are_told_by_their_fields(rows: Seq<TestEntry>, i: int)
    requires
        0 <= i < rows.len(),
    ensures
        test_panel::entry_views(rows).len() == rows.len(),
        test_panel::entry_views(rows)[i].index == rows[i].index,
        test_panel::entry_views(rows)[i].name == rows[i].name@,
        test_panel::entry_views(rows)[i].icon == rows[i].icon,
        test_panel::entry_views(rows)[i].color == rows[i].color,
        test_panel::entry_views(rows)[i].selected == rows[i].selected,
{
}

/// A map of entries holds what the last entry under each name says.
pub proof fn the_last_entry_under_a_name_counts<V: View>(entries: Seq<(String, V)>, i: int)
    requires
        0 <= i < entries.len(),
        forall|j: int| i < j < entries.len() ==> (#[trigger] entries[j]).0@ != entries[i].0@,
    ensures
        names::entries_map(entries).contains_key(entries[i].0@),
        names::entries_map(entries)[entries[i].0@] == entries[i].1@,
    decreases entries.len(),
{
    if i < entries.len() - 1 {
        let rest = entries.drop_last();
        assert forall|j: int| i < j < rest.len() implies (#[trigger] rest[j]).0@
            != rest[i].0@ by {
            assert(rest[j] == entries[j]);
        }
        the_last_entry_under_a_name_counts(rest, i);
        assert(entries[entries.len() - 1].0@ != entries[i].0@);
    }
}

/// A map of entries holds no name but those of the entries.
pub proof fn maps_hold_the_names_of_their_entries<V: View>(
    entries: Seq<(String, V)>,
    name: Seq<char>,
)
    requires
        names::entries_map(entries).contains_key(name),
    ensures
        exists|i: int| 0 <= i < entries.len() && (#[trigger] entries[i]).0@ == name,
    decreases entries.len(),
{
    let last = entries.len() - 1;
    if entries[last].0@ != name {
        let rest = entries.drop_last();
        maps_hold_the_names_of_their_entries(rest, name);
        let i = choose|i: int| 0 <= i < rest.len() && (#[trigger] rest[i]).0@ == name;
        assert(entries[i].0@ == name);
    }
}

/// Errors and replies are told as what they are, with everything that they bring.
pub proof fn errors_and_replies_are_told_in_full(error: RunError, reply: ResolveReply)
    ensures
        match error {
            RunError::NoTests => error@ == RunErrorView::NoTests,
            RunError::NoInventory => error@ == RunErrorView::NoInventory,
            RunError::NoTemplate { tag } => error@ == (RunErrorView::NoTemplate { tag: tag@ }),
            RunError::NoContext => error@ == RunErrorView::NoContext,
            RunError::Unresolved => error@ == RunErrorView::Unresolved,
            RunError::Outside { message } => error@ == (RunErrorView::Outside {
                message: message@,
            }),
        },
        match reply {
            ResolveReply::Failed { message } => reply@ == (ResolveReplyView::Failed {
                message: message@,
            }),
            ResolveReply::Templates { templates: Some(templates) } => reply@ == (
            ResolveReplyView::Templates {
                templates: Some(resolve::template_views(templates@)),
            }),
            ResolveReply::Templates { templates: None } => reply@ == (
            ResolveReplyView::Templates { templates: None }),
            ResolveReply::Context { found } => reply@ == (ResolveReplyView::Context { found }),
            ResolveReply::Task { resolved: Some(spawn) } => reply@ == (ResolveReplyView::Task {
                resolved: Some(spawn@),
            }),
            ResolveReply::Task { resolved: None } => reply@ == (ResolveReplyView::Task {
                resolved: None,
            }),
        },
{
}

/// What happens to a run and what it asks for are told as what they are, and so is how far it has
/// come.
pub proof fn courses_are_told_in_full<A: ?Sized>(
    task: RunTask<A>,
    event: RunEvent,
    action: RunAction,
    step: ResolveStep<A>,
)
    ensures
        match task {
            RunTask::Resolving { resolution } => task@ == (RunTaskView::Resolving {
                resolution: resolution@,
            }),
            RunTask::Starting { run } => task@ == (RunTaskView::Starting { run: run@ }),
            RunTask::Running => task@ == RunTaskView::<A>::Running,
        },
        match event {
            RunEvent::Replied { reply } => event@ == (RunEventView::Replied { reply: reply@ }),
            RunEvent::TerminalStarted { terminal } => event@ == (RunEventView::TerminalStarted {
                terminal,
            }),
            RunEvent::TerminalFailed { message } => event@ == (RunEventView::TerminalFailed {
                message: message@,
            }),
            RunEvent::Completed { content, exit_success } => event@ == (RunEventView::Completed {
                content: content@,
                exit_success,
            }),
        },
        match action {
            RunAction::Ask { request } => action@ == (RunActionView::Ask { request: request@ }),
            RunAction::Spawn { kill, spawn } => action@ == (RunActionView::Spawn {
                kill,
                spawn: spawn@,
            }),
            RunAction::AwaitCompletion { terminal } => action@ == (
            RunActionView::AwaitCompletion { terminal }),
            RunAction::Nothing => action@ == RunActionView::Nothing,
        },
        match step {
            ResolveStep::Ask { resolution, request } => step@ == (ResolveStepView::Ask {
                resolution: resolution@,
                request: request@,
            }),
            ResolveStep::Ready { run } => step@ == (ResolveStepView::Ready { run: run@ }),
            ResolveStep::Failed { error } => step@ == (ResolveStepView::<A>::Failed {
                error: error@,
            }),
        },
{
}

} // verus!
