use std::sync::Arc;

use test_runner::adapter::SpawnInTerminal;
use test_runner::discovery::Runnable;
use test_runner::names::NameMap;
use test_runner::resolve::RunError;
use test_runner::run::{PreparedRun, TaskStatus, TestRunEvent};
use test_runner::test_panel::{
    active_buffer, ActiveEditor, Color, DockPosition, DockSide, IconName, PanelSettingsContent,
    Pixels, TestSource,
};
use test_runner::{
    default_adapters, DiscoveredTest, RustAdapter, TestPanel, TestPanelSettings,
    TestRunnerManager,
};

fn test(name: &str) -> DiscoveredTest {
    DiscoveredTest {
        name: name.to_string(),
        tag: "rust-test".to_string(),
        range: 12..15,
        extra_captures: NameMap::new(),
    }
}

fn runnable(name: &str) -> Runnable {
    Runnable {
        tags: vec!["rust-test".to_string()],
        name: name.to_string(),
        range: 12..15,
        extra_captures: NameMap::new(),
    }
}

fn manager(names: &[&str]) -> TestRunnerManager<RustAdapter> {
    let mut manager = TestRunnerManager::new(default_adapters());
    manager.set_active_buffer(Some(3), true);
    let runnables: Vec<Runnable> = names.iter().map(|name| runnable(name)).collect();
    manager.discovery_finished(3, &runnables);
    manager
}

fn start(manager: &mut TestRunnerManager<RustAdapter>, names: &[&str]) {
    let run = PreparedRun {
        spawn: SpawnInTerminal::default(),
        targets: names.iter().map(|name| test(name)).collect(),
        adapter: Arc::new(RustAdapter),
    };
    manager.execute(&run, None);
    manager.run_started(run, 6);
}

#[test]
fn full_editors_of_one_buffer_are_followed() {
    assert_eq!(active_buffer(None), None);
    assert_eq!(active_buffer(Some(ActiveEditor { full: true, singleton: Some(2) })), Some(2));
    assert_eq!(active_buffer(Some(ActiveEditor { full: true, singleton: None })), None);
    assert_eq!(active_buffer(Some(ActiveEditor { full: false, singleton: Some(2) })), None);
}

#[test]
fn events_of_the_manager_change_the_panel() {
    let mut panel = TestPanel::new();
    let manager = manager(&["alpha"]);
    assert_eq!(
        panel.select_test(0, &manager, true),
        Some(TestSource { buffer: 3, position: 12 })
    );
    assert_eq!(panel.handle_manager_event(&TestRunEvent::RunStarted, None), None);
    assert_eq!(panel.output_view, None);
    assert_eq!(panel.handle_manager_event(&TestRunEvent::RunStarted, Some(6)), Some(6));
    assert_eq!(panel.output_view, Some(6));
    assert_eq!(panel.selected_index, Some(0));
    let finished = TestRunEvent::RunFinished { success: true };
    assert_eq!(panel.handle_manager_event(&finished, Some(7)), None);
    assert_eq!(panel.output_view, Some(6));
    assert_eq!(panel.handle_manager_event(&TestRunEvent::DiscoveryUpdated, Some(7)), None);
    assert_eq!(panel.selected_index, None);
    assert_eq!(panel.output_view, Some(6));
}

#[test]
fn sources_are_opened_where_there_are_some() {
    let manager = manager(&["alpha"]);
    let mut panel = TestPanel::new();
    assert_eq!(panel.select_test(1, &manager, true), None);
    assert_eq!(panel.selected_index, Some(1));
    assert_eq!(panel.open_test_source(0, &manager, false), None);
    assert_eq!(
        panel.open_test_source(0, &manager, true),
        Some(TestSource { buffer: 3, position: 12 })
    );
}

#[test]
fn buttons_follow_the_manager() {
    let panel = TestPanel::new();
    let mut manager = manager(&[]);
    let buttons = panel.render_header(&manager, None);
    assert!(buttons.run_disabled && buttons.rerun_disabled && buttons.stop_disabled);
    manager.discovery_finished(3, &vec![runnable("alpha")]);
    let buttons = panel.render_header(&manager, None);
    assert!(!buttons.run_disabled && buttons.rerun_disabled && buttons.stop_disabled);
    start(&mut manager, &["alpha"]);
    let buttons = panel.render_header(&manager, Some(TaskStatus::Running));
    assert!(buttons.run_disabled && buttons.rerun_disabled && !buttons.stop_disabled);
    let buttons = panel.render_header(&manager, Some(TaskStatus::Ended));
    assert!(!buttons.run_disabled && !buttons.rerun_disabled && buttons.stop_disabled);
}

#[test]
fn rows_show_statuses() {
    let mut manager = manager(&["a", "b", "c", "d", "e"]);
    start(&mut manager, &["a", "b", "c", "d"]);
    manager.parse_current_output("test a ... ok\ntest b ... FAILED\ntest c ... ignored\n");
    let mut panel = TestPanel::new();
    panel.select_test(1, &manager, true);
    let rows = panel.render_entries(0..9, &manager);
    let places: Vec<usize> = rows.iter().map(|row| row.index).collect();
    assert_eq!(places, vec![0, 1, 2, 3, 4]);
    let shown: Vec<(&str, IconName, Color, bool)> =
        rows.iter().map(|row| (row.name.as_str(), row.icon, row.color, row.selected)).collect();
    assert_eq!(
        shown,
        vec![
            ("a", IconName::Check, Color::Success, false),
            ("b", IconName::XCircle, Color::Error, true),
            ("c", IconName::Dash, Color::Warning, false),
            ("d", IconName::PlayFilled, Color::Accent, false),
            ("e", IconName::Dash, Color::Muted, false),
        ]
    );
    assert_eq!(panel.render_entries(3..5, &manager).len(), 2);
    assert!(panel.render_entries(5..3, &manager).is_empty());
    assert!(panel.render_test_entry(5, &manager).is_none());
}

#[test]
fn the_panel_shows_tests_error_and_output() {
    let mut panel = TestPanel::new();
    let mut manager = manager(&[]);
    let content = panel.render(&manager);
    assert_eq!(content.tests, Err("No tests discovered in the active file"));
    assert_eq!(content.error, None);
    assert_eq!(content.output, Err("No test run yet"));
    manager.discovery_finished(3, &vec![runnable("a"), runnable("b")]);
    manager.set_error(RunError::NoContext);
    panel.handle_manager_event(&TestRunEvent::RunStarted, Some(6));
    let content = panel.render(&manager);
    assert_eq!(content.tests, Ok(2));
    assert_eq!(content.error.as_deref(), Some("no task context for the test's location"));
    assert_eq!(content.output, Ok(6));
}

#[test]
fn settings_are_taken_from_a_full_content() {
    let content = Some(PanelSettingsContent {
        button: Some(true),
        default_width: Some(Pixels { bits: 240f32.to_bits() }),
        dock: Some(DockSide::Right),
    });
    let panel = TestPanel::new();
    let settings = TestPanelSettings::from_settings(&content);
    assert!(settings.button);
    assert_eq!(f32::from_bits(panel.default_size(&settings).bits), 240.0);
    assert_eq!(panel.position(&settings), DockPosition::Right);
    assert_eq!(panel.icon(&settings), Some(IconName::ListTodo));
    let hidden = TestPanelSettings { button: false, dock: DockSide::Left, ..settings };
    assert_eq!(panel.icon(&hidden), None);
    assert_eq!(panel.position(&hidden), DockPosition::Left);
}

#[test]
fn the_panel_stands_at_the_sides() {
    let panel = TestPanel::new();
    assert!(panel.position_is_valid(DockPosition::Left));
    assert!(panel.position_is_valid(DockPosition::Right));
    assert!(!panel.position_is_valid(DockPosition::Bottom));
    assert_eq!(panel.set_position(DockPosition::Left), DockSide::Left);
    assert_eq!(panel.set_position(DockPosition::Bottom), DockSide::Left);
    assert_eq!(panel.set_position(DockPosition::Right), DockSide::Right);
}

#[test]
fn the_panel_has_its_names() {
    let panel = TestPanel::new();
    assert_eq!(TestPanel::persistent_name(), "Test Panel");
    assert_eq!(TestPanel::panel_key(), "TestPanel");
    assert_eq!(panel.icon_tooltip(), Some("Test Panel"));
    assert_eq!(panel.activation_priority(), 8);
}

#[test]
fn the_panel_stays_where_it_was_moved() {
    let panel = TestPanel::new();
    for position in [DockPosition::Left, DockPosition::Bottom, DockPosition::Right] {
        let settings = TestPanelSettings {
            button: true,
            default_width: Pixels { bits: 0 },
            dock: panel.set_position(position),
        };
        let stands = panel.position(&settings);
        assert!(panel.position_is_valid(stands));
        if panel.position_is_valid(position) {
            assert_eq!(stands, position);
        }
    }
}
