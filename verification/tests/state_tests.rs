use procview::record::ProcessRecord;
use procview::state::{Action, App, Event, InputMode};
use procview::view::{SortBy, SortOrder};

fn rec(pid: u32, ppid: u32, cpu: u64, command: &str) -> ProcessRecord {
    ProcessRecord {
        pid,
        ppid,
        user: "user".to_string(),
        status: "S".to_string(),
        cpu_millipct: cpu,
        mem_millipct: cpu,
        virtual_mem: 0,
        cpu_time: cpu,
        command: command.to_string(),
    }
}

fn app_with(recs: Vec<ProcessRecord>) -> App {
    let mut app = App::new();
    app.replace_snapshot(recs);
    app
}

#[test]
fn defaults_are_flat_cpu_descending() {
    let app = App::new();
    assert_eq!(app.sort_by, SortBy::CPU);
    assert_eq!(app.sort_order, SortOrder::Desc);
    assert!(!app.tree_view);
    assert_eq!(app.input_mode, InputMode::Normal);
    assert_eq!(app.cursor, None);
    assert!(app.active_filter.is_none());
    assert!(app.message.is_none());
}

#[test]
fn move_next_wraps_back_to_start() {
    let mut app = app_with(vec![rec(1, 0, 1, "a"), rec(2, 0, 2, "b"), rec(3, 0, 3, "c")]);
    app.cursor = Some(1);
    let len = app.get_list_length();
    assert_eq!(len, 3);
    for _ in 0..len {
        app.next();
    }
    assert_eq!(app.cursor, Some(1));
}

#[test]
fn move_previous_wraps_to_end() {
    let mut app = app_with(vec![rec(1, 0, 1, "a"), rec(2, 0, 2, "b")]);
    app.cursor = Some(0);
    app.previous();
    assert_eq!(app.cursor, Some(1));
    app.previous();
    assert_eq!(app.cursor, Some(0));
}

#[test]
fn navigation_on_empty_list_is_a_no_op() {
    let mut app = App::new();
    app.next();
    assert_eq!(app.cursor, None);
    app.previous();
    assert_eq!(app.cursor, None);
    app.home();
    app.end();
    assert_eq!(app.cursor, None);
}

#[test]
fn page_down_clamps_and_page_up_floors() {
    let mut app = app_with(vec![
        rec(1, 0, 1, "a"),
        rec(2, 0, 2, "b"),
        rec(3, 0, 3, "c"),
        rec(4, 0, 4, "d"),
    ]);
    app.cursor = Some(1);
    app.page_down(100);
    assert_eq!(app.cursor, Some(3));
    app.page_down(100);
    assert_eq!(app.cursor, Some(3));
    app.page_up(2);
    assert_eq!(app.cursor, Some(1));
    app.page_up(100);
    assert_eq!(app.cursor, Some(0));
}

#[test]
fn home_and_end_select_first_and_last() {
    let mut app = app_with(vec![rec(1, 0, 1, "a"), rec(2, 0, 2, "b"), rec(3, 0, 3, "c")]);
    app.end();
    assert_eq!(app.cursor, Some(2));
    app.home();
    assert_eq!(app.cursor, Some(0));
}

#[test]
fn selecting_new_sort_key_resets_cursor_and_sorts_descending() {
    let mut app = app_with(vec![rec(1, 0, 1, "a"), rec(2, 0, 2, "b")]);
    app.cursor = Some(1);
    app.set_sort_by(SortBy::MEM);
    assert_eq!(app.sort_by, SortBy::MEM);
    assert_eq!(app.sort_order, SortOrder::Desc);
    assert_eq!(app.cursor, Some(0));
}

#[test]
fn reselecting_active_key_flips_direction_and_keeps_key() {
    let mut app = App::new();
    assert_eq!(app.sort_by, SortBy::CPU);
    app.set_sort_by(SortBy::CPU);
    assert_eq!(app.sort_by, SortBy::CPU);
    assert_eq!(app.sort_order, SortOrder::Asc);
    app.set_sort_by(SortBy::CPU);
    assert_eq!(app.sort_order, SortOrder::Desc);
}

#[test]
fn toggle_tree_resets_cursor() {
    let mut app = app_with(vec![rec(1, 0, 1, "a"), rec(2, 0, 2, "b")]);
    app.cursor = Some(1);
    let act = app.handle_event(Event::ToggleTree, 10);
    assert_eq!(act, Action::Nothing);
    assert!(app.tree_view);
    assert_eq!(app.cursor, Some(0));
}

#[test]
fn kill_menu_needs_a_selection() {
    let mut app = app_with(vec![rec(1, 0, 1, "a")]);
    // No selection yet: the menu must not open.
    let act = app.handle_event(Event::OpenKillMenu, 10);
    assert_eq!(act, Action::Nothing);
    assert_eq!(app.input_mode, InputMode::Normal);
    // With a selection it opens on the catalog's first entry.
    app.handle_event(Event::Down, 10);
    assert_eq!(app.cursor, Some(0));
    app.handle_event(Event::OpenKillMenu, 10);
    assert_eq!(app.input_mode, InputMode::KillMenu);
    assert_eq!(app.sig_index, 0);
}

#[test]
fn kill_menu_cursor_wraps_both_ways() {
    let mut app = app_with(vec![rec(1, 0, 1, "a")]);
    app.handle_event(Event::Down, 10);
    app.handle_event(Event::OpenKillMenu, 10);
    assert_eq!(app.sig_index, 0);
    app.handle_event(Event::Up, 10);
    assert_eq!(app.sig_index, 5);
    app.handle_event(Event::Down, 10);
    assert_eq!(app.sig_index, 0);
    for _ in 0..5 {
        app.handle_event(Event::Down, 10);
    }
    assert_eq!(app.sig_index, 5);
}

#[test]
fn kill_confirm_emits_selected_signal_for_selected_pid() {
    let mut app = app_with(vec![rec(7, 0, 9, "a"), rec(4, 0, 1, "b")]);
    app.handle_event(Event::Down, 10);
    // CPU descending: pid 7 leads the view.
    app.handle_event(Event::OpenKillMenu, 10);
    // Move to the fourth entry: SIGTERM, number 15.
    app.handle_event(Event::Down, 10);
    app.handle_event(Event::Down, 10);
    app.handle_event(Event::Down, 10);
    let act = app.handle_event(Event::Confirm, 10);
    assert_eq!(act, Action::Signal { pid: 7, signal: 15 });
    assert_eq!(app.input_mode, InputMode::Normal);
}

#[test]
fn kill_menu_escape_leaves_without_action() {
    let mut app = app_with(vec![rec(1, 0, 1, "a")]);
    app.handle_event(Event::Down, 10);
    app.handle_event(Event::OpenKillMenu, 10);
    let act = app.handle_event(Event::Escape, 10);
    assert_eq!(act, Action::Nothing);
    assert_eq!(app.input_mode, InputMode::Normal);
}

#[test]
fn search_builds_commits_and_clears_a_filter() {
    let mut app = app_with(vec![
        rec(1, 0, 1, "bash"),
        rec(2, 0, 2, "zsh"),
        rec(3, 0, 3, "chrome"),
    ]);
    app.handle_event(Event::OpenSearch, 10);
    assert_eq!(app.input_mode, InputMode::Search);
    app.handle_event(Event::Char('s'), 10);
    app.handle_event(Event::Char('x'), 10);
    app.handle_event(Event::Backspace, 10);
    app.handle_event(Event::Char('h'), 10);
    app.handle_event(Event::Confirm, 10);
    assert_eq!(app.input_mode, InputMode::Normal);
    assert_eq!(app.active_filter.as_deref(), Some("sh"));
    assert_eq!(app.cursor, Some(0));
    assert_eq!(app.get_list_length(), 2);
    // Escape clears the filter and brings the whole set back.
    app.handle_event(Event::Escape, 10);
    assert!(app.active_filter.is_none());
    assert_eq!(app.cursor, Some(0));
    assert_eq!(app.get_list_length(), 3);
}

#[test]
fn search_cancel_keeps_existing_filter() {
    let mut app = app_with(vec![rec(1, 0, 1, "bash"), rec(2, 0, 2, "chrome")]);
    app.handle_event(Event::OpenSearch, 10);
    app.handle_event(Event::Char('b'), 10);
    app.handle_event(Event::Confirm, 10);
    assert_eq!(app.active_filter.as_deref(), Some("b"));
    app.handle_event(Event::OpenSearch, 10);
    app.handle_event(Event::Char('z'), 10);
    app.handle_event(Event::Escape, 10);
    assert_eq!(app.input_mode, InputMode::Normal);
    assert_eq!(app.active_filter.as_deref(), Some("b"));
}

#[test]
fn committing_an_empty_query_clears_the_filter() {
    let mut app = app_with(vec![rec(1, 0, 1, "bash")]);
    app.handle_event(Event::OpenSearch, 10);
    app.handle_event(Event::Char('b'), 10);
    app.handle_event(Event::Confirm, 10);
    assert!(app.active_filter.is_some());
    app.handle_event(Event::OpenSearch, 10);
    app.handle_event(Event::Confirm, 10);
    assert!(app.active_filter.is_none());
}

#[test]
fn signal_catalog_is_fixed_and_ordered() {
    let app = App::new();
    let expected = vec![
        (" 1 SIGHUP", 1),
        (" 2 SIGINT", 2),
        (" 9 SIGKILL", 9),
        ("15 SIGTERM", 15),
        ("20 SIGTSTP", 20),
        ("24 SIGXCPU", 24),
    ];
    assert_eq!(app.kill_signals, expected);
}

#[test]
fn quit_event_requests_termination() {
    let mut app = App::new();
    let act = app.handle_event(Event::Quit, 10);
    assert_eq!(act, Action::Quit);
}

#[test]
fn selected_pid_follows_the_rendered_view() {
    let mut app = app_with(vec![rec(1, 0, 5, "slow"), rec(2, 0, 50, "busy")]);
    app.cursor = Some(0);
    // CPU descending: the busiest process leads.
    assert_eq!(app.selected_pid(), Some(2));
    app.set_sort_by(SortBy::PID);
    app.set_sort_by(SortBy::PID);
    // PID ascending now; cursor was reset to the top.
    assert_eq!(app.sort_order, SortOrder::Asc);
    assert_eq!(app.selected_pid(), Some(1));
    // A stale cursor beyond the view yields no selection.
    app.cursor = Some(9);
    assert_eq!(app.selected_pid(), None);
}

#[test]
fn signal_outcome_messages() {
    let mut app = App::new();
    app.record_signal_outcome(1234, 15, None);
    assert_eq!(app.message.as_deref(), Some("Sent signal 15 to PID 1234"));
    app.record_signal_outcome(77, 9, Some("permission denied".to_string()));
    assert_eq!(app.message.as_deref(), Some("Error killing 77: permission denied"));
}

#[test]
fn end_to_end_filter_navigate_and_clear() {
    // Default state: flat view, CPU sort descending.
    let mut app = App::new();
    assert_eq!(app.sort_by, SortBy::CPU);
    assert_eq!(app.sort_order, SortOrder::Desc);
    assert!(!app.tree_view);
    app.replace_snapshot(vec![
        rec(1, 0, 10, "bash"),
        rec(2, 0, 20, "zsh"),
        rec(3, 0, 30, "fish"),
        rec(4, 0, 40, "chrome"),
    ]);
    // Apply the filter "sh".
    app.handle_event(Event::OpenSearch, 10);
    app.handle_event(Event::Char('s'), 10);
    app.handle_event(Event::Char('h'), 10);
    app.handle_event(Event::Confirm, 10);
    assert_eq!(app.cursor, Some(0));
    assert_eq!(app.get_list_length(), 3);
    // Two steps down.
    app.handle_event(Event::Down, 10);
    app.handle_event(Event::Down, 10);
    assert_eq!(app.cursor, Some(2));
    // Escape clears the filter: cursor back to 0, full set visible.
    app.handle_event(Event::Escape, 10);
    assert_eq!(app.cursor, Some(0));
    assert!(app.active_filter.is_none());
    assert_eq!(app.get_list_length(), 4);
    assert_eq!(app.render_view().len(), 4);
}
