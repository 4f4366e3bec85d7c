//! What holds of resolution: proofs about the questions that it asks, the order that it brings the
//! targets in, and what becomes of each reply.

use vstd::prelude::*;

use crate::adapter::{DiscoveredTestView, SpawnView, TestAdapter};
use crate::resolve;
use crate::resolve::{
    ResolutionView, ResolveReplyView, ResolveRequestView, ResolveStage, ResolveStepView,
    RunErrorView,
};
use crate::run::RunRequestView;

verus! {

broadcast use vstd::seq_lib::group_seq_properties;

/// What the user is told, word for word.
pub proof fn errors_are_told_in_words(tag: Seq<char>, message: Seq<char>)
    ensures
        resolve::error_message(RunErrorView::NoTests) == "no tests to run"@,
        resolve::error_message(RunErrorView::NoInventory) == "project has no task inventory"@,
        resolve::error_message(RunErrorView::NoTemplate { tag })
            == "no task template found for tag `"@ + tag + "`"@,
        resolve::error_message(RunErrorView::NoContext)
            == "no task context for the test's location"@,
        resolve::error_message(RunErrorView::Unresolved)
            == "failed to resolve the test task template"@,
        resolve::error_message(RunErrorView::Outside { message }) == message,
{
}

/// What is found through a tag is the first target with the tag, from a place on.
proof fn lemma_first_tagged(targets: Seq<DiscoveredTestView>, tag: Seq<char>, from: int)
    requires
        0 <= from,
    ensures
        match resolve::tagged_target_from(targets, tag, from) {
            Some(t) => {
                &&& from <= t < targets.len()
                &&& targets[t].tag == tag
                &&& forall|j: int| from <= j < t ==> (#[trigger] targets[j]).tag != tag
            },
            None => forall|j: int|
                from <= j < targets.len() ==> (#[trigger] targets[j]).tag != tag,
        },
    decreases targets.len() - from,
{
    if from < targets.len() && targets[from].tag != tag {
        lemma_first_tagged(targets, tag, from + 1);
    }
}

/// The first plain test changes places with the first target, and every other target stays where it
/// is.
pub proof fn the_first_plain_test_changes_places(
    tags: Seq<Seq<char>>,
    targets: Seq<DiscoveredTestView>,
    plain: int,
)
    requires
        tags.len() > 0,
        0 <= plain < targets.len(),
        targets[plain].tag == tags[0],
        forall|j: int| 0 <= j < plain ==> (#[trigger] targets[j]).tag != tags[0],
    ensures
        ({
            let ordered = resolve::resolution_order(tags, targets);
            &&& ordered.len() == targets.len()
            &&& ordered[0] == targets[plain]
            &&& ordered[plain] == targets[0]
            &&& forall|j: int|
                0 < j < targets.len() && j != plain ==> #[trigger] ordered[j] == targets[j]
        }),
{
    lemma_first_tagged(targets, tags[0], 0);
}

/// Without a plain test the targets keep their order.
pub proof fn targets_without_plain_tests_stay(
    tags: Seq<Seq<char>>,
    targets: Seq<DiscoveredTestView>,
)
    requires
        tags.len() == 0 || forall|j: int|
            0 <= j < targets.len() ==> (#[trigger] targets[j]).tag != tags[0],
    ensures
        resolve::resolution_order(tags, targets) == targets,
{
    if tags.len() > 0 {
        lemma_first_tagged(targets, tags[0], 0);
    }
}

/// The resolution of a run with targets begins with the question for the templates of the run's
/// buffer, and goes on with the same run; one without targets comes to nothing.
pub proof fn resolution_begins_with_the_templates<A: TestAdapter + ?Sized>(
    request: RunRequestView<A>,
)
    ensures
        request.targets.len() == 0 ==> resolve::first_step(request) == (ResolveStepView::<
            A,
        >::Failed { error: RunErrorView::NoTests }),
        request.targets.len() > 0 ==> {
            &&& resolve::first_step(request) matches ResolveStepView::Ask { resolution, request: asked }
            &&& asked == ResolveRequestView::ListTemplates { buffer: request.buffer }
            &&& resolution.stage == ResolveStage::Templates
            &&& resolution.request.kind == request.kind
            &&& resolution.request.buffer == request.buffer
            &&& resolution.request.adapter == request.adapter
            &&& resolution.request.targets == resolve::resolution_order(
                request.adapter.spec_tags(),
                request.targets,
            )
        },
{
    let tags = request.adapter.spec_tags();
    if tags.len() > 0 {
        lemma_first_tagged(request.targets, tags[0], 0);
    }
}

/// What is found for a tag is the first template with the tag, from a place on.
proof fn lemma_first_template(templates: Seq<Seq<Seq<char>>>, tag: Seq<char>, from: int)
    requires
        0 <= from,
    ensures
        match resolve::tagged_template_from(templates, tag, from) {
            Some(t) => {
                &&& from <= t < templates.len()
                &&& templates[t].contains(tag)
                &&& forall|j: int| from <= j < t ==> !(#[trigger] templates[j]).contains(tag)
            },
            None => forall|j: int|
                from <= j < templates.len() ==> !(#[trigger] templates[j]).contains(tag),
        },
    decreases templates.len() - from,
{
    if from < templates.len() && !templates[from].contains(tag) {
        lemma_first_template(templates, tag, from + 1);
    }
}

/// When templates come back, the first one with the tag of the first target is taken, and the
/// context is asked for where that target starts, in the buffer of the run and with the captures of
/// the target, whatever the kind of the run. The run stays as it was.
pub proof fn contexts_are_built_where_the_first_target_starts<A: TestAdapter + ?Sized>(
    resolution: ResolutionView<A>,
    templates: Seq<Seq<Seq<char>>>,
    chosen: int,
)
    requires
        resolution.stage == ResolveStage::Templates,
        resolution.request.targets.len() > 0,
        0 <= chosen < templates.len() <= usize::MAX,
        templates[chosen].contains(resolution.request.targets[0].tag),
        forall|j: int|
            0 <= j < chosen ==> !(#[trigger] templates[j]).contains(
                resolution.request.targets[0].tag,
            ),
    ensures
        ({
            let base = resolution.request.targets[0];
            let reply = ResolveReplyView::Templates { templates: Some(templates) };
            &&& resolve::next_step(resolution, reply) matches ResolveStepView::Ask {
                resolution: next,
                request: asked,
            }
            &&& asked matches ResolveRequestView::BuildContext {
                template,
                variables,
                buffer,
                start,
                end,
            }
            &&& template == chosen
            &&& variables == base.extra_captures
            &&& buffer == resolution.request.buffer
            &&& start == base.range.start
            &&& end == base.range.start
            &&& next.request == resolution.request
            &&& next.stage == ResolveStage::Context { template: chosen as usize }
        }),
{
    lemma_first_template(templates, resolution.request.targets[0].tag, 0);
}

/// Where no template has the tag of the first target, the run comes to nothing, and so it does
/// where there are no templates.
pub proof fn runs_need_a_template_for_their_tag<A: TestAdapter + ?Sized>(
    resolution: ResolutionView<A>,
    templates: Seq<Seq<Seq<char>>>,
)
    requires
        resolution.stage == ResolveStage::Templates,
        resolution.request.targets.len() > 0,
    ensures
        resolve::next_step(resolution, ResolveReplyView::Templates { templates: None }) == (
        ResolveStepView::<A>::Failed { error: RunErrorView::NoInventory }),
        (forall|j: int|
            0 <= j < templates.len() ==> !(#[trigger] templates[j]).contains(
                resolution.request.targets[0].tag,
            )) ==> resolve::next_step(
            resolution,
            ResolveReplyView::Templates { templates: Some(templates) },
        ) == (ResolveStepView::<A>::Failed {
            error: RunErrorView::NoTemplate { tag: resolution.request.targets[0].tag },
        }),
{
    lemma_first_template(templates, resolution.request.targets[0].tag, 0);
}

/// Once there is a context, the template that was chosen is resolved, for the same run; without one
/// the run comes to nothing.
pub proof fn the_chosen_template_is_resolved<A: TestAdapter + ?Sized>(
    resolution: ResolutionView<A>,
    template: usize,
)
    requires
        resolution.stage == (ResolveStage::Context { template }),
    ensures
        resolve::next_step(resolution, ResolveReplyView::Context { found: true }) == (
        ResolveStepView::Ask {
            resolution: ResolutionView {
                request: resolution.request,
                stage: ResolveStage::Task { template },
            },
            request: ResolveRequestView::ResolveTemplate { template: template as int },
        }),
        resolve::next_step(resolution, ResolveReplyView::Context { found: false }) == (
        ResolveStepView::<A>::Failed { error: RunErrorView::NoContext }),
{
}

/// The resolved command is handed to the run's adapter, with the kind and the targets of the run,
/// and the run that is ready has those targets and that adapter; without a command the run comes to
/// nothing.
pub proof fn resolved_commands_are_shaped_for_the_run<A: TestAdapter + ?Sized>(
    resolution: ResolutionView<A>,
    template: usize,
    spawn: SpawnView,
)
    requires
        resolution.stage == (ResolveStage::Task { template }),
    ensures
        resolve::next_step(resolution, ResolveReplyView::Task { resolved: Some(spawn) }) matches
            ResolveStepView::Ready { run } && run.targets == resolution.request.targets
            && run.adapter == resolution.request.adapter && run.spawn
            == resolution.request.adapter.spec_prepare(
            resolution.request.kind,
            resolution.request.targets,
            spawn,
        ),
        resolve::next_step(resolution, ResolveReplyView::Task { resolved: None }) == (
        ResolveStepView::<A>::Failed { error: RunErrorView::Unresolved }),
{
}

/// What fails outside is told as it was told to the runner, whatever the resolution waited for.
pub proof fn failures_outside_are_told_on<A: TestAdapter + ?Sized>(
    resolution: ResolutionView<A>,
    message: Seq<char>,
)
    ensures
        resolve::next_step(resolution, ResolveReplyView::Failed { message }) == (ResolveStepView::<
            A,
        >::Failed { error: RunErrorView::Outside { message } }),
{
}

/// A reply that does not bring what the resolution waits for ends it, with the error for what is
/// missing.
pub proof fn replies_out_of_turn_end_the_resolution<A: TestAdapter + ?Sized>(
    resolution: ResolutionView<A>,
    reply: ResolveReplyView,
)
    requires
        reply !is Failed,
    ensures
        resolution.stage is Templates && reply !is Templates ==> resolve::next_step(
            resolution,
            reply,
        ) == (ResolveStepView::<A>::Failed { error: RunErrorView::NoInventory }),
        resolution.stage is Context && reply !is Context ==> resolve::next_step(resolution, reply)
            == (ResolveStepView::<A>::Failed { error: RunErrorView::NoContext }),
        resolution.stage is Task && reply !is Task ==> resolve::next_step(resolution, reply) == (
        ResolveStepView::<A>::Failed { error: RunErrorView::Unresolved }),
{
}

} // verus!
