//! Resolution: how the targets of a run become a command, question by question to the editor's
//! task infrastructure.

use std::ops::Range;

use vstd::prelude::*;

use crate::adapter;
use crate::adapter::{
    Anchor, DiscoveredTest, DiscoveredTestView, SpawnInTerminal, SpawnView, TestAdapter,
};
use crate::names::NameMap;
use crate::run::{BufferId, PreparedRun, PreparedRunView, RunRequest, RunRequestView};
use crate::text::same_text;

verus! {

/// Why a run came to nothing.
#[derive(Debug)]
pub enum RunError {
    /// There was nothing to run.
    NoTests,
    /// The project keeps no tasks.
    NoInventory,
    /// No task template has the tag of the test.
    NoTemplate { tag: String },
    /// There is no task context where the test stands.
    NoContext,
    /// The template does not resolve in its context.
    Unresolved,
    /// Something outside of the runner failed, with this message.
    Outside { message: String },
}

/// An error as a mathematical value.
pub enum RunErrorView {
    NoTests,
    NoInventory,
    NoTemplate { tag: Seq<char> },
    NoContext,
    Unresolved,
    Outside { message: Seq<char> },
}

impl View for RunError {
    type V = RunErrorView;

    open spec fn view(&self) -> RunErrorView {
        match self {
            RunError::NoTests => RunErrorView::NoTests,
            RunError::NoInventory => RunErrorView::NoInventory,
            RunError::NoTemplate { tag } => RunErrorView::NoTemplate { tag: tag@ },
            RunError::NoContext => RunErrorView::NoContext,
            RunError::Unresolved => RunErrorView::Unresolved,
            RunError::Outside { message } => RunErrorView::Outside { message: message@ },
        }
    }
}

/// What the user is told about an error.
pub open spec fn error_message(error: RunErrorView) -> Seq<char> {
    match error {
        RunErrorView::NoTests => "no tests to run"@,
        RunErrorView::NoInventory => "project has no task inventory"@,
        RunErrorView::NoTemplate { tag } => "no task template found for tag `"@ + tag + "`"@,
        RunErrorView::NoContext => "no task context for the test's location"@,
        RunErrorView::Unresolved => "failed to resolve the test task template"@,
        RunErrorView::Outside { message } => message,
    }
}

impl RunError {
    /// What the user is told about the error.
    pub fn message(self) -> (r: String)
        ensures
            r@ == error_message(self@),
    {
        match self {
            RunError::NoTests => "no tests to run".to_string(),
            RunError::NoInventory => "project has no task inventory".to_string(),
            RunError::NoTemplate { tag } => {
                let mut message = "no task template found for tag `".to_string();
                message.append(tag.as_str());
                message.append("`");
                message
            },
            RunError::NoContext => "no task context for the test's location".to_string(),
            RunError::Unresolved => "failed to resolve the test task template".to_string(),
            RunError::Outside { message } => message,
        }
    }
}

/// A task template, as far as it matters which tests it runs.
pub struct TaskTemplate {
    pub tags: Vec<String>,
}

impl View for TaskTemplate {
    type V = Seq<Seq<char>>;

    open spec fn view(&self) -> Seq<Seq<char>> {
        adapter::string_views(self.tags@)
    }
}

/// The tags of task templates.
pub open spec fn template_views(templates: Seq<TaskTemplate>) -> Seq<Seq<Seq<char>>> {
    templates.map_values(|template: TaskTemplate| template@)
}

/// The first template, from `i` on, that has a tag.
pub open spec fn tagged_template_from(
    templates: Seq<Seq<Seq<char>>>,
    tag: Seq<char>,
    i: int,
) -> Option<int>
    decreases templates.len() - i,
{
    if i >= templates.len() {
        None
    } else if templates[i].contains(tag) {
        Some(i)
    } else {
        tagged_template_from(templates, tag, i + 1)
    }
}

/// The first template that has a tag.
pub open spec fn tagged_template(templates: Seq<Seq<Seq<char>>>, tag: Seq<char>) -> Option<int> {
    tagged_template_from(templates, tag, 0)
}

/// The first test, from `i` on, that was discovered through a tag.
pub open spec fn tagged_target_from(
    targets: Seq<DiscoveredTestView>,
    tag: Seq<char>,
    i: int,
) -> Option<int>
    decreases targets.len() - i,
{
    if i >= targets.len() {
        None
    } else if targets[i].tag == tag {
        Some(i)
    } else {
        tagged_target_from(targets, tag, i + 1)
    }
}

/// The targets in the order in which they are resolved: the first plain test function changes
/// places with the first target. Plain test functions are those that the adapter's first tag
/// marks.
pub open spec fn resolution_order(
    tags: Seq<Seq<char>>,
    targets: Seq<DiscoveredTestView>,
) -> Seq<DiscoveredTestView> {
    if tags.len() == 0 {
        targets
    } else {
        match tagged_target_from(targets, tags[0], 0) {
            Some(i) => targets.update(0, targets[i]).update(i, targets[0]),
            None => targets,
        }
    }
}

/// What the resolution waits for.
pub enum ResolveStage {
    /// The project's task templates.
    Templates,
    /// The task context for the chosen template.
    Context { template: usize },
    /// The command that the chosen template resolves to.
    Task { template: usize },
}

/// Variables of a task, under names that the tasks do not know of themselves.
pub struct TaskVariables {
    pub custom: NameMap<String>,
}

/// A place in a buffer.
pub struct Location {
    pub buffer: BufferId,
    pub range: Range<Anchor>,
}

/// What the resolution asks for.
pub enum ResolveRequest {
    /// List the task templates that apply in the buffer.
    ListTemplates { buffer: BufferId },
    /// Build the task context for a location, with the given variables.
    BuildContext { template: usize, variables: TaskVariables, location: Location },
    /// Resolve a template, which is given by its place in the list, in that context.
    ResolveTemplate { template: usize },
}

/// What the resolution asks for, as a mathematical value.
pub enum ResolveRequestView {
    ListTemplates { buffer: BufferId },
    BuildContext {
        template: int,
        variables: Map<Seq<char>, Seq<char>>,
        buffer: BufferId,
        start: Anchor,
        end: Anchor,
    },
    ResolveTemplate { template: int },
}

impl View for ResolveRequest {
    type V = ResolveRequestView;

    open spec fn view(&self) -> ResolveRequestView {
        match self {
            ResolveRequest::ListTemplates { buffer } => ResolveRequestView::ListTemplates {
                buffer: *buffer,
            },
            ResolveRequest::BuildContext { template, variables, location } => {
                ResolveRequestView::BuildContext {
                    template: *template as int,
                    variables: variables.custom@,
                    buffer: location.buffer,
                    start: location.range.start,
                    end: location.range.end,
                }
            },
            ResolveRequest::ResolveTemplate { template } => ResolveRequestView::ResolveTemplate {
                template: *template as int,
            },
        }
    }
}

/// What comes back.
pub enum ResolveReply {
    /// The request failed, with this message.
    Failed { message: String },
    /// The templates, if the project keeps tasks.
    Templates { templates: Option<Vec<TaskTemplate>> },
    /// Whether there is a context.
    Context { found: bool },
    /// The command, if the template resolves.
    Task { resolved: Option<SpawnInTerminal> },
}

/// What comes back, as a mathematical value.
pub enum ResolveReplyView {
    Failed { message: Seq<char> },
    Templates { templates: Option<Seq<Seq<Seq<char>>>> },
    Context { found: bool },
    Task { resolved: Option<SpawnView> },
}

impl View for ResolveReply {
    type V = ResolveReplyView;

    open spec fn view(&self) -> ResolveReplyView {
        match self {
            ResolveReply::Failed { message } => ResolveReplyView::Failed { message: message@ },
            ResolveReply::Templates { templates } => ResolveReplyView::Templates {
                templates: match templates {
                    Some(templates) => Some(template_views(templates@)),
                    None => None,
                },
            },
            ResolveReply::Context { found } => ResolveReplyView::Context { found: *found },
            ResolveReply::Task { resolved } => ResolveReplyView::Task {
                resolved: match resolved {
                    Some(spawn) => Some(spawn@),
                    None => None,
                },
            },
        }
    }
}

/// A resolution under way.
pub struct Resolution<A: ?Sized> {
    request: RunRequest<A>,
    stage: ResolveStage,
}

/// A resolution as a mathematical value.
pub struct ResolutionView<A: ?Sized> {
    pub request: RunRequestView<A>,
    pub stage: ResolveStage,
}

impl<A: ?Sized> View for Resolution<A> {
    type V = ResolutionView<A>;

    closed spec fn view(&self) -> ResolutionView<A> {
        ResolutionView { request: self.request@, stage: self.stage }
    }
}

/// Where a resolution stands after a reply.
pub enum ResolveStep<A: ?Sized> {
    /// There is something more to ask.
    Ask { resolution: Resolution<A>, request: ResolveRequest },
    /// The run is ready.
    Ready { run: PreparedRun<A> },
    /// The run came to nothing.
    Failed { error: RunError },
}

/// Where a resolution stands, as a mathematical value.
pub enum ResolveStepView<A: ?Sized> {
    Ask { resolution: ResolutionView<A>, request: ResolveRequestView },
    Ready { run: PreparedRunView<A> },
    Failed { error: RunErrorView },
}

impl<A: ?Sized> View for ResolveStep<A> {
    type V = ResolveStepView<A>;

    open spec fn view(&self) -> ResolveStepView<A> {
        match self {
            ResolveStep::Ask { resolution, request } => ResolveStepView::Ask {
                resolution: resolution@,
                request: request@,
            },
            ResolveStep::Ready { run } => ResolveStepView::Ready { run: run@ },
            ResolveStep::Failed { error } => ResolveStepView::Failed { error: error@ },
        }
    }
}

/// How the resolution of a run begins: with the targets in order, it asks for the templates.
pub open spec fn first_step<A: TestAdapter + ?Sized>(request: RunRequestView<A>) -> ResolveStepView<A> {
    let ordered = resolution_order(request.adapter.spec_tags(), request.targets);
    if ordered.len() == 0 {
        ResolveStepView::Failed { error: RunErrorView::NoTests }
    } else {
        ResolveStepView::Ask {
            resolution: ResolutionView {
                request: RunRequestView { targets: ordered, ..request },
                stage: ResolveStage::Templates,
            },
            request: ResolveRequestView::ListTemplates { buffer: request.buffer },
        }
    }
}

/// What follows when templates come back: the first one with the tag of the first target is
/// chosen, and the context where that target starts is asked for, with its captures.
pub open spec fn after_templates<A: TestAdapter + ?Sized>(
    request: RunRequestView<A>,
    templates: Option<Seq<Seq<Seq<char>>>>,
) -> ResolveStepView<A> {
    let base = request.targets[0];
    match templates {
        None => ResolveStepView::Failed { error: RunErrorView::NoInventory },
        Some(templates) => match tagged_template(templates, base.tag) {
            None => ResolveStepView::Failed { error: RunErrorView::NoTemplate { tag: base.tag } },
            Some(template) => ResolveStepView::Ask {
                resolution: ResolutionView {
                    request,
                    stage: ResolveStage::Context { template: template as usize },
                },
                request: ResolveRequestView::BuildContext {
                    template,
                    variables: base.extra_captures,
                    buffer: request.buffer,
                    start: base.range.start,
                    end: base.range.start,
                },
            },
        },
    }
}

/// What follows when a context comes back.
pub open spec fn after_context<A: TestAdapter + ?Sized>(
    request: RunRequestView<A>,
    template: usize,
    found: bool,
) -> ResolveStepView<A> {
    if found {
        ResolveStepView::Ask {
            resolution: ResolutionView { request, stage: ResolveStage::Task { template } },
            request: ResolveRequestView::ResolveTemplate { template: template as int },
        }
    } else {
        ResolveStepView::Failed { error: RunErrorView::NoContext }
    }
}

/// What follows when a command comes back: the adapter shapes it for the run.
pub open spec fn after_task<A: TestAdapter + ?Sized>(
    request: RunRequestView<A>,
    resolved: Option<SpawnView>,
) -> ResolveStepView<A> {
    match resolved {
        None => ResolveStepView::Failed { error: RunErrorView::Unresolved },
        Some(spawn) => ResolveStepView::Ready {
            run: PreparedRunView {
                spawn: request.adapter.spec_prepare(request.kind, request.targets, spawn),
                targets: request.targets,
                adapter: request.adapter,
            },
        },
    }
}

/// What follows a reply. A reply that does not bring what the resolution waits for ends it as if
/// there were none of that.
pub open spec fn next_step<A: TestAdapter + ?Sized>(
    resolution: ResolutionView<A>,
    reply: ResolveReplyView,
) -> ResolveStepView<A> {
    let request = resolution.request;
    match (resolution.stage, reply) {
        (_, ResolveReplyView::Failed { message }) => ResolveStepView::Failed {
            error: RunErrorView::Outside { message },
        },
        (ResolveStage::Templates, ResolveReplyView::Templates { templates }) => after_templates(
            request,
            templates,
        ),
        (ResolveStage::Templates, _) => after_templates(request, None),
        (ResolveStage::Context { template }, ResolveReplyView::Context { found }) => after_context(
            request,
            template,
            found,
        ),
        (ResolveStage::Context { template }, _) => after_context(request, template, false),
        (ResolveStage::Task { template }, ResolveReplyView::Task { resolved }) => after_task(
            request,
            resolved,
        ),
        (ResolveStage::Task { template }, _) => after_task(request, None),
    }
}

/// The first target that was discovered through a tag.
fn find_tagged(targets: &Vec<DiscoveredTest>, tag: &str) -> (r: Option<usize>)
    ensures
        match r {
            Some(i) => i < targets@.len() && tagged_target_from(
                adapter::test_views(targets@),
                tag@,
                0,
            ) == Some(i as int),
            None => tagged_target_from(adapter::test_views(targets@), tag@, 0) is None,
        },
{
    let ghost views = adapter::test_views(targets@);
    let mut i: usize = 0;
    while i < targets.len()
        invariant
            i <= targets@.len(),
            views == adapter::test_views(targets@),
            tagged_target_from(views, tag@, 0) == tagged_target_from(views, tag@, i as int),
        decreases targets@.len() - i,
    {
        if same_text(targets[i].tag.as_str(), tag) {
            return Some(i);
        }
        i += 1;
    }
    None
}

/// Puts the targets in the order in which they are resolved.
fn order_targets<A: TestAdapter + ?Sized>(adapter: &A, targets: Vec<DiscoveredTest>) -> (r: Vec<
    DiscoveredTest,
>)
    ensures
        adapter::test_views(r@) == resolution_order(
            adapter.spec_tags(),
            adapter::test_views(targets@),
        ),
{
    let mut targets = targets;
    let ghost before = adapter::test_views(targets@);
    let tags = adapter.test_tags();
    if tags.len() > 0 {
        match find_tagged(&targets, tags[0]) {
            Some(i) => {
                if i > 0 {
                    let tagged = targets.remove(i);
                    let first = targets.remove(0);
                    targets.insert(0, tagged);
                    targets.insert(i, first);
                }
                proof {
                    assert(adapter::test_views(targets@) =~= before.update(
                        0,
                        before[i as int],
                    ).update(i as int, before[0]));
                }
            },
            None => {},
        }
    }
    targets
}

/// Whether a template has a tag.
fn template_has_tag(template: &TaskTemplate, tag: &str) -> (r: bool)
    ensures
        r == template@.contains(tag@),
{
    let ghost views = template@;
    let mut i: usize = 0;
    while i < template.tags.len()
        invariant
            i <= template.tags@.len(),
            views == adapter::string_views(template.tags@),
            forall|j: int| 0 <= j < i ==> views[j] != tag@,
        decreases template.tags@.len() - i,
    {
        if same_text(template.tags[i].as_str(), tag) {
            proof {
                assert(views[i as int] == tag@);
            }
            return true;
        }
        i += 1;
    }
    false
}

/// The first template that has a tag.
fn find_template(templates: &Vec<TaskTemplate>, tag: &str) -> (r: Option<usize>)
    ensures
        match r {
            Some(i) => tagged_template(template_views(templates@), tag@) == Some(i as int),
            None => tagged_template(template_views(templates@), tag@) is None,
        },
{
    let ghost views = template_views(templates@);
    let mut i: usize = 0;
    while i < templates.len()
        invariant
            i <= templates@.len(),
            views == template_views(templates@),
            tagged_template(views, tag@) == tagged_template_from(views, tag@, i as int),
        decreases templates@.len() - i,
    {
        if template_has_tag(&templates[i], tag) {
            return Some(i);
        }
        i += 1;
    }
    None
}

/// Begins to resolve the targets of a run into a command, by the pipeline that the editor's
/// gutter runnables go through: tag-matched task templates from the inventory, resolved against
/// the task context built for the test's location.
pub fn resolve<A: TestAdapter + ?Sized>(request: RunRequest<A>) -> (r: ResolveStep<A>)
    ensures
        r@ == first_step(request@),
{
    // The adapter's first tag marks plain test functions, which are the only
    // runnables whose template can be widened into a multi-test run.
    let targets = order_targets(&*request.adapter, request.targets);
    if targets.len() == 0 {
        return ResolveStep::Failed { error: RunError::NoTests };
    }
    let buffer = request.buffer;
    let resolution = Resolution {
        request: RunRequest {
            kind: request.kind,
            buffer: request.buffer,
            targets,
            adapter: request.adapter,
        },
        stage: ResolveStage::Templates,
    };
    ResolveStep::Ask { resolution, request: ResolveRequest::ListTemplates { buffer } }
}

impl<A: ?Sized> Resolution<A> {
    /// There is a first target.
    #[verifier::type_invariant]
    spec fn has_base(self) -> bool {
        self.request.targets@.len() > 0
    }
}

impl<A: TestAdapter + ?Sized> Resolution<A> {
    /// Takes a reply in, and says what follows.
    pub fn advance(self, reply: ResolveReply) -> (r: ResolveStep<A>)
        ensures
            r@ == next_step(self@, reply@),
    {
        proof {
            use_type_invariant(&self);
        }
        match (self.stage, reply) {
            (_, ResolveReply::Failed { message }) => ResolveStep::Failed {
                error: RunError::Outside { message },
            },
            (ResolveStage::Templates, ResolveReply::Templates { templates }) => choose_template(
                self.request,
                templates,
            ),
            (ResolveStage::Templates, _) => ResolveStep::Failed { error: RunError::NoInventory },
            (ResolveStage::Context { template }, ResolveReply::Context { found: true }) => {
                ResolveStep::Ask {
                    resolution: Resolution {
                        request: self.request,
                        stage: ResolveStage::Task { template },
                    },
                    request: ResolveRequest::ResolveTemplate { template },
                }
            },
            (ResolveStage::Context { template: _ }, _) => ResolveStep::Failed {
                error: RunError::NoContext,
            },
            (ResolveStage::Task { template: _ }, ResolveReply::Task { resolved: Some(base) }) => {
                let request = self.request;
                let spawn = request.adapter.prepare_run(
                    request.kind,
                    request.targets.as_slice(),
                    base,
                );
                ResolveStep::Ready {
                    run: PreparedRun { spawn, targets: request.targets, adapter: request.adapter },
                }
            },
            (ResolveStage::Task { template: _ }, _) => ResolveStep::Failed {
                error: RunError::Unresolved,
            },
        }
    }
}

/// Chooses a template for the first target, and asks for the context where it starts.
fn choose_template<A: TestAdapter + ?Sized>(
    request: RunRequest<A>,
    templates: Option<Vec<TaskTemplate>>,
) -> (r: ResolveStep<A>)
    requires
        request.targets@.len() > 0,
    ensures
        r@ == after_templates(
            request@,
            match templates {
                Some(templates) => Some(template_views(templates@)),
                None => None,
            },
        ),
{
    let templates = match templates {
        Some(templates) => templates,
        None => return ResolveStep::Failed { error: RunError::NoInventory },
    };
    let base = request.targets[0].clone();
    match find_template(&templates, base.tag.as_str()) {
        None => ResolveStep::Failed { error: RunError::NoTemplate { tag: base.tag } },
        Some(template) => {
            let location = Location {
                buffer: request.buffer,
                range: Range { start: base.range.start, end: base.range.start },
            };
            let variables = TaskVariables { custom: base.extra_captures };
            ResolveStep::Ask {
                resolution: Resolution { request, stage: ResolveStage::Context { template } },
                request: ResolveRequest::BuildContext { template, variables, location },
            }
        },
    }
}

} // verus!
