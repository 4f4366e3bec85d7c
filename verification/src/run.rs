//! Runs of tests: what is asked for, what was prepared, what is under way, and what is told
//! about it.

use std::sync::Arc;

use vstd::prelude::*;

use crate::adapter;
use crate::adapter::{
    DiscoveredTest, DiscoveredTestView, RunKind, SpawnInTerminal, SpawnView, TestAdapter,
};

verus! {

/// A buffer, under the number that the editor gave it.
pub type BufferId = u64;

/// A terminal, under the number that the editor gave it.
pub type TerminalId = u64;

/// What became of the task of a terminal.
#[derive(Debug, Clone, Copy, PartialEq, Eq, Structural)]
pub enum TaskStatus {
    Running,
    Ended,
}

/// Events emitted by the manager. The UI observes these instead of
/// reading terminal output.
#[derive(Debug, PartialEq, Eq)]
pub enum TestRunEvent {
    DiscoveryUpdated,
    RunStarted,
    TestStarted(String),
    TestPassed(String),
    TestFailed(String),
    RunFinished { success: bool },
}

/// An event as a mathematical value.
pub enum TestRunEventView {
    DiscoveryUpdated,
    RunStarted,
    TestStarted(Seq<char>),
    TestPassed(Seq<char>),
    TestFailed(Seq<char>),
    RunFinished { success: bool },
}

impl View for TestRunEvent {
    type V = TestRunEventView;

    open spec fn view(&self) -> TestRunEventView {
        match self {
            TestRunEvent::DiscoveryUpdated => TestRunEventView::DiscoveryUpdated,
            TestRunEvent::RunStarted => TestRunEventView::RunStarted,
            TestRunEvent::TestStarted(name) => TestRunEventView::TestStarted(name@),
            TestRunEvent::TestPassed(name) => TestRunEventView::TestPassed(name@),
            TestRunEvent::TestFailed(name) => TestRunEventView::TestFailed(name@),
            TestRunEvent::RunFinished { success } => TestRunEventView::RunFinished {
                success: *success,
            },
        }
    }
}

impl Clone for TestRunEvent {
    fn clone(&self) -> (r: Self)
        ensures
            r@ == self@,
    {
        match self {
            TestRunEvent::DiscoveryUpdated => TestRunEvent::DiscoveryUpdated,
            TestRunEvent::RunStarted => TestRunEvent::RunStarted,
            TestRunEvent::TestStarted(name) => TestRunEvent::TestStarted(name.clone()),
            TestRunEvent::TestPassed(name) => TestRunEvent::TestPassed(name.clone()),
            TestRunEvent::TestFailed(name) => TestRunEvent::TestFailed(name.clone()),
            TestRunEvent::RunFinished { success } => TestRunEvent::RunFinished {
                success: *success,
            },
        }
    }
}

/// What a change of the manager asks of its surroundings: the events to emit, in this order,
/// and whether observers are to be notified.
#[derive(Debug)]
pub struct Effects {
    pub events: Vec<TestRunEvent>,
    pub notify: bool,
}

/// Effects as a mathematical value.
#[verifier::ext_equal]
pub struct EffectsView {
    pub events: Seq<TestRunEventView>,
    pub notify: bool,
}

/// Events as mathematical values.
pub open spec fn event_views(events: Seq<TestRunEvent>) -> Seq<TestRunEventView> {
    events.map_values(|event: TestRunEvent| event@)
}

impl View for Effects {
    type V = EffectsView;

    open spec fn view(&self) -> EffectsView {
        EffectsView { events: event_views(self.events@), notify: self.notify }
    }
}

impl Effects {
    /// No events, and nobody to notify.
    pub fn none() -> (r: Self)
        ensures
            r@ == (EffectsView { events: Seq::empty(), notify: false }),
    {
        let r = Effects { events: Vec::new(), notify: false };
        proof {
            assert(r@.events =~= Seq::<TestRunEventView>::empty());
        }
        r
    }

    /// The list of tests changed.
    pub fn discovery_updated() -> (r: Self)
        ensures
            r@ == (EffectsView {
                events: seq![TestRunEventView::DiscoveryUpdated],
                notify: true,
            }),
    {
        let mut r = Effects::none();
        r.events.push(TestRunEvent::DiscoveryUpdated);
        r.notify = true;
        proof {
            assert(r@.events =~= seq![TestRunEventView::DiscoveryUpdated]);
        }
        r
    }
}

/// A run that was asked for: its targets, and the adapter that runs them.
pub struct RunRequest<A: ?Sized> {
    pub kind: RunKind,
    pub buffer: BufferId,
    pub targets: Vec<DiscoveredTest>,
    pub adapter: Arc<A>,
}

/// A run that was asked for, as a mathematical value.
#[verifier::ext_equal]
pub struct RunRequestView<A: ?Sized> {
    pub kind: RunKind,
    pub buffer: BufferId,
    pub targets: Seq<DiscoveredTestView>,
    pub adapter: Arc<A>,
}

impl<A: ?Sized> View for RunRequest<A> {
    type V = RunRequestView<A>;

    open spec fn view(&self) -> RunRequestView<A> {
        RunRequestView {
            kind: self.kind,
            buffer: self.buffer,
            targets: adapter::test_views(self.targets@),
            adapter: self.adapter,
        }
    }
}

/// A run that is ready to be executed.
pub struct PreparedRun<A: ?Sized> {
    pub spawn: SpawnInTerminal,
    pub targets: Vec<DiscoveredTest>,
    pub adapter: Arc<A>,
}

/// A prepared run as a mathematical value.
#[verifier::ext_equal]
pub struct PreparedRunView<A: ?Sized> {
    pub spawn: SpawnView,
    pub targets: Seq<DiscoveredTestView>,
    pub adapter: Arc<A>,
}

impl<A: ?Sized> View for PreparedRun<A> {
    type V = PreparedRunView<A>;

    open spec fn view(&self) -> PreparedRunView<A> {
        PreparedRunView {
            spawn: self.spawn@,
            targets: adapter::test_views(self.targets@),
            adapter: self.adapter,
        }
    }
}

impl<A: TestAdapter + ?Sized> Clone for PreparedRun<A> {
    fn clone(&self) -> (r: Self)
        ensures
            r@ == self@,
    {
        PreparedRun {
            spawn: self.spawn.clone(),
            targets: adapter::clone_tests(self.targets.as_slice()),
            adapter: self.adapter.clone(),
        }
    }
}

/// A run whose terminal was started.
pub struct CurrentRun<A: ?Sized> {
    pub terminal: TerminalId,
    pub adapter: Arc<A>,
    pub targets: Vec<DiscoveredTest>,
}

/// A run under way as a mathematical value.
#[verifier::ext_equal]
pub struct CurrentRunView<A: ?Sized> {
    pub terminal: TerminalId,
    pub adapter: Arc<A>,
    pub targets: Seq<DiscoveredTestView>,
}

impl<A: ?Sized> View for CurrentRun<A> {
    type V = CurrentRunView<A>;

    open spec fn view(&self) -> CurrentRunView<A> {
        CurrentRunView {
            terminal: self.terminal,
            adapter: self.adapter,
            targets: adapter::test_views(self.targets@),
        }
    }
}

} // verus!
