//! What holds of the panel: proofs about the rows, the buttons, the docks and the places in the
//! source.

use vstd::prelude::*;

use crate::adapter::TestStatus;
use crate::run::TaskStatus;
use crate::state;
use crate::state::ManagerView;
use crate::test_panel;
use crate::test_panel::{Color, DockPosition, DockSide, IconName};

verus! {

/// Each status has its icon and its color.
pub proof fn statuses_have_their_icons()
    ensures
        test_panel::status_icon(TestStatus::NotRun) == (IconName::Dash, Color::Muted),
        test_panel::status_icon(TestStatus::Running) == (IconName::PlayFilled, Color::Accent),
        test_panel::status_icon(TestStatus::Passed) == (IconName::Check, Color::Success),
        test_panel::status_icon(TestStatus::Failed) == (IconName::XCircle, Color::Error),
        test_panel::status_icon(TestStatus::Ignored) == (IconName::Dash, Color::Warning),
{
}

/// Whether a row shows the test at a place in the list: its name, its status, and whether it is
/// selected.
pub open spec fn row_shows<A: ?Sized>(
    row: test_panel::TestEntryView,
    state: ManagerView<A>,
    selected: Option<usize>,
    index: int,
) -> bool {
    &&& row.index == index
    &&& row.name == state.discovered[index].name
    &&& (row.icon, row.color) == test_panel::status_icon(
        state::status_of(state.statuses, state.discovered[index].name),
    )
    &&& row.selected <==> selected is Some && selected->0 == index
}

/// There is a row for each place in the list, and it shows the test at that place; there is none
/// for any other place.
pub proof fn rows_show_their_tests<A: ?Sized>(
    state: ManagerView<A>,
    selected: Option<usize>,
    index: int,
)
    ensures
        match test_panel::test_entry(state, selected, index) {
            Some(row) => 0 <= index < state.discovered.len() && row_shows(
                row,
                state,
                selected,
                index,
            ),
            None => !(0 <= index < state.discovered.len()),
        },
{
}

/// The rows of a part of the list show the tests of that part, one after the other, as far as the
/// list goes.
pub proof fn a_part_of_the_list_shows_its_tests<A: ?Sized>(
    state: ManagerView<A>,
    selected: Option<usize>,
    start: int,
    end: int,
)
    requires
        0 <= start,
    ensures
        ({
            let rows = test_panel::test_entries(state, selected, start, end);
            let stop = if end < state.discovered.len() {
                end
            } else {
                state.discovered.len() as int
            };
            &&& rows.len() == (if start < stop {
                stop - start
            } else {
                0
            })
            &&& forall|k: int|
                0 <= k < rows.len() ==> row_shows(#[trigger] rows[k], state, selected, start + k)
        }),
    decreases end - start,
{
    if start < end {
        a_part_of_the_list_shows_its_tests(state, selected, start, end - 1);
    }
}

/// The place that is opened for a test is the start of that test, in the active buffer; nothing is
/// opened exactly where there is no such test or the buffer is gone.
pub proof fn tests_are_opened_where_they_start<A: ?Sized>(
    state: ManagerView<A>,
    index: int,
    alive: bool,
)
    ensures
        match test_panel::test_source(state, index, alive) {
            Some(source) => {
                &&& 0 <= index < state.discovered.len()
                &&& alive
                &&& state.buffer == Some(source.buffer)
                &&& source.position == state.discovered[index].range.start
            },
            None => !(0 <= index < state.discovered.len()) || !alive || state.buffer is None,
        },
{
}

/// The tests can be run where there are some, the last run can be repeated where there was one,
/// both exactly while nothing runs, and a run can be stopped exactly while it runs.
pub proof fn buttons_can_be_pressed_where_they_do_something<A: ?Sized>(
    state: ManagerView<A>,
    task: Option<TaskStatus>,
)
    ensures
        ({
            let buttons = test_panel::header_buttons(state, task);
            let running = state.current_run is Some && task == Some(TaskStatus::Running);
            &&& !buttons.run_disabled <==> state.discovered.len() > 0 && !running
            &&& !buttons.rerun_disabled <==> state.last_run is Some && !running
            &&& !buttons.stop_disabled <==> running
        }),
{
}

/// The sides stand for the docks at them, the left side also for the dock at the bottom, in which
/// the panel cannot stand.
pub proof fn sides_stand_for_docks()
    ensures
        test_panel::side_position(DockSide::Left) == DockPosition::Left,
        test_panel::side_position(DockSide::Right) == DockPosition::Right,
        test_panel::position_side(DockPosition::Left) == DockSide::Left,
        test_panel::position_side(DockPosition::Bottom) == DockSide::Left,
        test_panel::position_side(DockPosition::Right) == DockSide::Right,
        test_panel::valid_position(DockPosition::Left),
        test_panel::valid_position(DockPosition::Right),
        !test_panel::valid_position(DockPosition::Bottom),
{
}

} // verus!
