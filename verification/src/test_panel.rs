//! The panel: which test is selected, whose output is shown, and what is drawn of the manager's
//! state.

use std::ops::Range;

use vstd::prelude::*;

use crate::adapter::{Anchor, TestAdapter, TestStatus};
use crate::manager::TestRunnerManager;
use crate::run::{BufferId, TaskStatus, TerminalId, TestRunEvent};
use crate::state;
use crate::state::ManagerView;

verus! {

/// A dock panel listing the tests discovered in the active file, with
/// pass/fail statuses and the live output of the current run.
pub struct TestPanel {
    /// The test that is selected, by its place in the list.
    pub selected_index: Option<usize>,
    /// The terminal whose output is shown.
    pub output_view: Option<TerminalId>,
}

/// An editor that is active in the workspace.
pub struct ActiveEditor {
    /// Whether the editor is a full one, rather than a single line or a popover.
    pub full: bool,
    /// The buffer that it shows, if it shows one alone.
    pub singleton: Option<BufferId>,
}

/// The buffer whose tests are shown, if the active item acts as a full editor of one buffer.
pub fn active_buffer(editor: Option<ActiveEditor>) -> (r: Option<BufferId>)
    ensures
        r == match editor {
            Some(editor) => if editor.full {
                editor.singleton
            } else {
                None
            },
            None => None,
        },
{
    match editor {
        Some(editor) if editor.full => editor.singleton,
        _ => None,
    }
}

/// Icons that the panel draws.
#[derive(Debug, Clone, Copy, PartialEq, Eq, Structural)]
pub enum IconName {
    Dash,
    PlayFilled,
    Check,
    XCircle,
    ListTodo,
}

/// Colors that the panel draws icons in.
#[derive(Debug, Clone, Copy, PartialEq, Eq, Structural)]
pub enum Color {
    Muted,
    Accent,
    Success,
    Error,
    Warning,
}

/// The icon that stands for a status.
pub open spec fn status_icon(status: TestStatus) -> (IconName, Color) {
    match status {
        TestStatus::NotRun => (IconName::Dash, Color::Muted),
        TestStatus::Running => (IconName::PlayFilled, Color::Accent),
        TestStatus::Passed => (IconName::Check, Color::Success),
        TestStatus::Failed => (IconName::XCircle, Color::Error),
        TestStatus::Ignored => (IconName::Dash, Color::Warning),
    }
}

/// Which buttons of the header cannot be pressed.
pub struct HeaderButtons {
    pub run_disabled: bool,
    pub rerun_disabled: bool,
    pub stop_disabled: bool,
}

/// The buttons of the header: tests are run when there are some, and a run is repeated when there
/// was one, both only while nothing runs; what runs can be stopped.
pub open spec fn header_buttons<A: ?Sized>(
    state: ManagerView<A>,
    task: Option<TaskStatus>,
) -> HeaderButtons {
    let running = state::running_terminal(state, task) is Some;
    HeaderButtons {
        run_disabled: state.discovered.len() == 0 || running,
        rerun_disabled: state.last_run is None || running,
        stop_disabled: !running,
    }
}

/// A row of the list.
pub struct TestEntry {
    /// The place of the test in the list.
    pub index: usize,
    pub name: String,
    pub icon: IconName,
    pub color: Color,
    pub selected: bool,
}

/// A row of the list as a mathematical value.
pub struct TestEntryView {
    pub index: int,
    pub name: Seq<char>,
    pub icon: IconName,
    pub color: Color,
    pub selected: bool,
}

impl View for TestEntry {
    type V = TestEntryView;

    open spec fn view(&self) -> TestEntryView {
        TestEntryView {
            index: self.index as int,
            name: self.name@,
            icon: self.icon,
            color: self.color,
            selected: self.selected,
        }
    }
}

/// The row for the test at a place in the list, if there is one.
pub open spec fn test_entry<A: ?Sized>(
    state: ManagerView<A>,
    selected: Option<usize>,
    index: int,
) -> Option<TestEntryView> {
    if 0 <= index < state.discovered.len() {
        let name = state.discovered[index].name;
        let (icon, color) = status_icon(state::status_of(state.statuses, name));
        Some(
            TestEntryView {
                index,
                name,
                icon,
                color,
                selected: selected is Some && selected->0 == index,
            },
        )
    } else {
        None
    }
}

/// The rows of a part of the list.
pub open spec fn test_entries<A: ?Sized>(
    state: ManagerView<A>,
    selected: Option<usize>,
    start: int,
    end: int,
) -> Seq<TestEntryView>
    decreases end - start,
{
    if start >= end {
        Seq::empty()
    } else {
        match test_entry(state, selected, end - 1) {
            Some(entry) => test_entries(state, selected, start, end - 1).push(entry),
            None => test_entries(state, selected, start, end - 1),
        }
    }
}

/// Rows as mathematical values.
pub open spec fn entry_views(entries: Seq<TestEntry>) -> Seq<TestEntryView> {
    entries.map_values(|entry: TestEntry| entry@)
}

/// Where a test stands in the source.
#[derive(Debug, Clone, Copy, PartialEq, Eq, Structural)]
pub struct TestSource {
    pub buffer: BufferId,
    pub position: Anchor,
}

/// Where the test at a place in the list stands in the source, if its buffer still exists.
pub open spec fn test_source<A: ?Sized>(
    state: ManagerView<A>,
    index: int,
    alive: bool,
) -> Option<TestSource> {
    match state::live_buffer(state, alive) {
        Some(buffer) => if 0 <= index < state.discovered.len() {
            Some(TestSource { buffer, position: state.discovered[index].range.start })
        } else {
            None
        },
        None => None,
    }
}

/// What the panel shows.
pub struct PanelContent {
    /// How many tests are listed, or what is said where there are none.
    pub tests: Result<usize, &'static str>,
    /// What went wrong with the last run.
    pub error: Option<String>,
    /// The terminal whose output is shown, or what is said where there is none.
    pub output: Result<TerminalId, &'static str>,
}

impl TestPanel {
    /// A panel with nothing selected and no output.
    pub fn new() -> (r: Self)
        ensures
            r == (TestPanel { selected_index: None, output_view: None }),
    {
        TestPanel { selected_index: None, output_view: None }
    }

    /// Takes an event of the manager in. `run_terminal` is the terminal of the manager's current
    /// run. Returns the terminal for which a view is to be made.
    pub fn handle_manager_event(
        &mut self,
        event: &TestRunEvent,
        run_terminal: Option<TerminalId>,
    ) -> (r: Option<TerminalId>)
        ensures
            r == (if event is RunStarted {
                run_terminal
            } else {
                None
            }),
            *final(self) == (TestPanel {
                selected_index: if event is DiscoveryUpdated {
                    None
                } else {
                    old(self).selected_index
                },
                output_view: if event is RunStarted && run_terminal is Some {
                    run_terminal
                } else {
                    old(self).output_view
                },
            }),
    {
        match event {
            TestRunEvent::RunStarted => self.attach_output_view(run_terminal),
            TestRunEvent::DiscoveryUpdated => {
                self.selected_index = None;
                None
            },
            _ => None,
        }
    }

    /// Shows the output of the current run. Returns the terminal for which a view is to be made.
    fn attach_output_view(&mut self, run_terminal: Option<TerminalId>) -> (r: Option<TerminalId>)
        ensures
            r == run_terminal,
            *final(self) == (TestPanel {
                output_view: if run_terminal is Some {
                    run_terminal
                } else {
                    old(self).output_view
                },
                ..*old(self)
            }),
    {
        if run_terminal.is_some() {
            self.output_view = run_terminal;
        }
        run_terminal
    }

    /// Selects a test. Returns where its source is to be opened. `alive` says whether the buffer
    /// that the manager points at still exists.
    pub fn select_test<A: TestAdapter + ?Sized>(
        &mut self,
        index: usize,
        manager: &TestRunnerManager<A>,
        alive: bool,
    ) -> (r: Option<TestSource>)
        ensures
            *final(self) == (TestPanel { selected_index: Some(index), ..*old(self) }),
            r == test_source(manager@, index as int, alive),
    {
        self.selected_index = Some(index);
        self.open_test_source(index, manager, alive)
    }

    /// Where the source of a test is to be opened.
    pub fn open_test_source<A: TestAdapter + ?Sized>(
        &self,
        index: usize,
        manager: &TestRunnerManager<A>,
        alive: bool,
    ) -> (r: Option<TestSource>)
        ensures
            r == test_source(manager@, index as int, alive),
    {
        let tests = manager.discovered_tests();
        if index >= tests.len() {
            return None;
        }
        proof {
            assert(tests@[index as int]@ == manager@.discovered[index as int]);
        }
        match manager.buffer(alive) {
            Some(buffer) => Some(TestSource { buffer, position: tests[index].range.start }),
            None => None,
        }
    }

    /// The buttons of the header. `task` is what became of the task of the current run's
    /// terminal, if the terminal has one.
    pub fn render_header<A: TestAdapter + ?Sized>(
        &self,
        manager: &TestRunnerManager<A>,
        task: Option<TaskStatus>,
    ) -> (r: HeaderButtons)
        ensures
            r == header_buttons(manager@, task),
    {
        let is_running = manager.is_running(task);
        let has_tests = manager.discovered_tests().len() > 0;
        let has_last_run = manager.has_last_run();
        HeaderButtons {
            run_disabled: !has_tests || is_running,
            rerun_disabled: !has_last_run || is_running,
            stop_disabled: !is_running,
        }
    }

    /// The row for the test at a place in the list.
    pub fn render_test_entry<A: TestAdapter + ?Sized>(
        &self,
        index: usize,
        manager: &TestRunnerManager<A>,
    ) -> (r: Option<TestEntry>)
        ensures
            match r {
                Some(entry) => test_entry(manager@, self.selected_index, index as int) == Some(
                    entry@,
                ),
                None => test_entry(manager@, self.selected_index, index as int) is None,
            },
    {
        let tests = manager.discovered_tests();
        if index >= tests.len() {
            return None;
        }
        proof {
            assert(tests@[index as int]@ == manager@.discovered[index as int]);
        }
        let name = tests[index].name.clone();
        let (icon, color) = match manager.status(name.as_str()) {
            TestStatus::NotRun => (IconName::Dash, Color::Muted),
            TestStatus::Running => (IconName::PlayFilled, Color::Accent),
            TestStatus::Passed => (IconName::Check, Color::Success),
            TestStatus::Failed => (IconName::XCircle, Color::Error),
            TestStatus::Ignored => (IconName::Dash, Color::Warning),
        };
        let selected = match self.selected_index {
            Some(selected) => selected == index,
            None => false,
        };
        Some(TestEntry { index, name, icon, color, selected })
    }

    /// The rows of a part of the list.
    pub fn render_entries<A: TestAdapter + ?Sized>(
        &self,
        range: Range<usize>,
        manager: &TestRunnerManager<A>,
    ) -> (r: Vec<TestEntry>)
        ensures
            entry_views(r@) == test_entries(
                manager@,
                self.selected_index,
                range.start as int,
                range.end as int,
            ),
    {
        let mut entries: Vec<TestEntry> = Vec::new();
        let mut i: usize = range.start;
        proof {
            assert(entry_views(entries@) =~= Seq::<TestEntryView>::empty());
        }
        while i < range.end
            invariant
                range.start <= i,
                i <= range.end || i == range.start,
                entry_views(entries@) == test_entries(
                    manager@,
                    self.selected_index,
                    range.start as int,
                    i as int,
                ),
            decreases range.end - i,
        {
            let ghost before = entry_views(entries@);
            match self.render_test_entry(i, manager) {
                Some(entry) => {
                    entries.push(entry);
                    proof {
                        assert(entry_views(entries@) =~= before.push(entry@));
                    }
                },
                None => {},
            }
            i += 1;
        }
        entries
    }

    /// What the panel shows.
    pub fn render<A: TestAdapter + ?Sized>(&self, manager: &TestRunnerManager<A>) -> (r: PanelContent)
        ensures
            match r.tests {
                Ok(count) => count > 0 && count == manager@.discovered.len(),
                Err(label) => manager@.discovered.len() == 0 && label@
                    == "No tests discovered in the active file"@,
            },
            match r.error {
                Some(error) => manager@.error == Some(error@),
                None => manager@.error is None,
            },
            match r.output {
                Ok(terminal) => self.output_view == Some(terminal),
                Err(label) => self.output_view is None && label@ == "No test run yet"@,
            },
    {
        let test_count = manager.discovered_tests().len();
        let error = match manager.error() {
            Some(error) => Some(error.clone()),
            None => None,
        };
        let tests = if test_count == 0 {
            Err("No tests discovered in the active file")
        } else {
            Ok(test_count)
        };
        let output = match self.output_view {
            Some(terminal) => Ok(terminal),
            None => Err("No test run yet"),
        };
        PanelContent { tests, error, output }
    }

    /// The name under which the panel's place is stored.
    pub fn persistent_name() -> (r: &'static str)
        ensures
            r@ == "Test Panel"@,
    {
        "Test Panel"
    }

    /// The key under which the panel is serialized.
    pub fn panel_key() -> (r: &'static str)
        ensures
            r@ == "TestPanel"@,
    {
        "TestPanel"
    }

    /// The dock that the panel stands in.
    pub fn position(&self, settings: &TestPanelSettings) -> (r: DockPosition)
        ensures
            r == side_position(settings.dock),
    {
        match settings.dock {
            DockSide::Left => DockPosition::Left,
            DockSide::Right => DockPosition::Right,
        }
    }

    /// Whether the panel can stand in a dock.
    pub fn position_is_valid(&self, position: DockPosition) -> (r: bool)
        ensures
            r == valid_position(position),
    {
        match position {
            DockPosition::Left | DockPosition::Right => true,
            DockPosition::Bottom => false,
        }
    }

    /// The side that is stored when the panel is moved to a dock.
    pub fn set_position(&self, position: DockPosition) -> (r: DockSide)
        ensures
            r == position_side(position),
    {
        match position {
            DockPosition::Left | DockPosition::Bottom => DockSide::Left,
            DockPosition::Right => DockSide::Right,
        }
    }

    /// The width of the panel before it was resized.
    pub fn default_size(&self, settings: &TestPanelSettings) -> (r: Pixels)
        ensures
            r == settings.default_width,
    {
        settings.default_width
    }

    /// The icon of the panel's button, if the button is shown.
    pub fn icon(&self, settings: &TestPanelSettings) -> (r: Option<IconName>)
        ensures
            r == (if settings.button {
                Some(IconName::ListTodo)
            } else {
                None
            }),
    {
        if settings.button {
            Some(IconName::ListTodo)
        } else {
            None
        }
    }

    /// What is said of the panel's button.
    pub fn icon_tooltip(&self) -> (r: Option<&'static str>)
        ensures
            r is Some && (r->0)@ == "Test Panel"@,
    {
        Some("Test Panel")
    }

    /// The place of the panel among the panels of a dock.
    pub fn activation_priority(&self) -> (r: u32)
        ensures
            r == 8,
    {
        8
    }
}

/// A width in pixels: the bits of the number that the settings give.
#[derive(Debug, Clone, Copy, PartialEq, Eq, Structural)]
pub struct Pixels {
    pub bits: u32,
}

/// The sides of the window that the settings offer.
#[derive(Debug, Clone, Copy, PartialEq, Eq, Structural)]
pub enum DockSide {
    Left,
    Right,
}

/// The docks of the window.
#[derive(Debug, Clone, Copy, PartialEq, Eq, Structural)]
pub enum DockPosition {
    Left,
    Bottom,
    Right,
}

/// The dock at a side.
pub open spec fn side_position(side: DockSide) -> DockPosition {
    match side {
        DockSide::Left => DockPosition::Left,
        DockSide::Right => DockPosition::Right,
    }
}

/// The side that stands for a dock: the left one for the dock at the bottom.
pub open spec fn position_side(position: DockPosition) -> DockSide {
    match position {
        DockPosition::Left => DockSide::Left,
        DockPosition::Bottom => DockSide::Left,
        DockPosition::Right => DockSide::Right,
    }
}

/// Whether the panel can stand in a dock.
pub open spec fn valid_position(position: DockPosition) -> bool {
    position == DockPosition::Left || position == DockPosition::Right
}

/// The panel's part of the settings, as it is written.
pub struct PanelSettingsContent {
    pub button: Option<bool>,
    pub default_width: Option<Pixels>,
    pub dock: Option<DockSide>,
}

/// The panel's settings.
#[derive(Debug, Clone, Copy, PartialEq, Eq, Structural)]
pub struct TestPanelSettings {
    pub button: bool,
    pub default_width: Pixels,
    pub dock: DockSide,
}

impl TestPanelSettings {
    /// The settings, from a content in which the defaults fill every gap.
    pub fn from_settings(content: &Option<PanelSettingsContent>) -> (r: Self)
        requires
            content is Some,
            (content->0).button is Some,
            (content->0).default_width is Some,
            (content->0).dock is Some,
        ensures
            (content->0).button == Some(r.button),
            (content->0).default_width == Some(r.default_width),
            (content->0).dock == Some(r.dock),
    {
        let panel = content.as_ref().unwrap();
        TestPanelSettings {
            button: panel.button.unwrap(),
            default_width: panel.default_width.unwrap(),
            dock: panel.dock.unwrap(),
        }
    }
}

/// The panel stands where it was moved to, if it can stand there, and only moves to docks in
/// which it can stand.
pub proof fn moves_are_kept(position: DockPosition)
    ensures
        valid_position(side_position(position_side(position))),
        valid_position(position) ==> side_position(position_side(position)) == position,
{
}

/// What runs can be stopped, and nothing can be started beside it; what does not run cannot be
/// stopped.
pub proof fn runs_are_started_one_at_a_time<A: ?Sized>(state: ManagerView<A>, task: Option<TaskStatus>)
    ensures
        ({
            let buttons = header_buttons(state, task);
            &&& !buttons.stop_disabled ==> buttons.run_disabled && buttons.rerun_disabled
            &&& buttons.stop_disabled && state.discovered.len() > 0 ==> !buttons.run_disabled
            &&& buttons.stop_disabled && state.last_run is Some ==> !buttons.rerun_disabled
        }),
{
}

} // verus!
