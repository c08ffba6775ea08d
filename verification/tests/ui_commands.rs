use nrc::app::{App, CheckEntry, EntryKind, Status};
use nrc::detail_view::{DetailFocus, PanelBounds};
use nrc::keymap::{Command, KeyCode, KeyEvent, Keymap, NO_MODIFIERS};
use nrc::ui::{MouseEvent, MouseKind, Pane, Request, Ui, UiEvent};

fn make_ui() -> Ui {
    Ui::new()
}

fn plain_entry(name: &str, suite: Option<&str>) -> CheckEntry {
    CheckEntry {
        name: name.to_string(),
        status: Status::Pass,
        kind: EntryKind::Result,
        exit_code: "0".to_string(),
        stdout: String::new(),
        stderr: String::new(),
        suite: suite.map(str::to_owned),
        children: Vec::new(),
    }
}

fn make_app(n: usize) -> App {
    let mut app = App::new();
    for i in 0..n {
        app.upsert(plain_entry(&format!("check-{i}"), None));
    }
    app
}

fn make_app_with_children() -> App {
    let mut app = App::new();
    let mut snap = plain_entry("snap", None);
    snap.kind = EntryKind::Snapshot;
    snap.children = vec![plain_entry("actual", None)];
    app.upsert(snap);
    app
}

fn make_suite_app() -> App {
    let mut app = App::new();
    for name in ["alpha", "beta"] {
        app.upsert(plain_entry(name, Some("db")));
    }
    app
}

fn set_stdout(app: &mut App, key: &str, text: String) {
    let mut e = app.entries.get(key).unwrap().clone();
    e.stdout = text;
    app.entries.insert(key.to_string(), e);
}

fn set_stderr(app: &mut App, key: &str, text: String) {
    let mut e = app.entries.get(key).unwrap().clone();
    e.stderr = text;
    app.entries.insert(key.to_string(), e);
}

fn key_event(code: KeyCode) -> UiEvent {
    UiEvent::Key(KeyEvent {
        code,
        modifiers: NO_MODIFIERS,
    })
}

fn mouse_event(kind: MouseKind, column: u16) -> UiEvent {
    UiEvent::Mouse(MouseEvent {
        kind,
        column,
        row: 0,
    })
}

// -- Selection --

#[test]
fn select_next_from_none() {
    let mut ui = make_ui();
    let mut app = make_app(3);
    ui.execute(Command::SelectNext, &mut app);
    assert_eq!(ui.list.state.selected(), Some(0));
}

#[test]
fn select_next_advances() {
    let mut ui = make_ui();
    let mut app = make_app(3);
    *ui.list.state.selected_mut() = Some(0);
    ui.execute(Command::SelectNext, &mut app);
    assert_eq!(ui.list.state.selected(), Some(1));
}

#[test]
fn ui_select_next_clamps_at_end() {
    let mut ui = make_ui();
    let mut app = make_app(3);
    *ui.list.state.selected_mut() = Some(2);
    ui.execute(Command::SelectNext, &mut app);
    assert_eq!(ui.list.state.selected(), Some(2));
}

#[test]
fn tests_select_next_clamps_at_end() {
    let mut ui = make_ui();
    let mut app = make_app(3);
    *ui.list.state.selected_mut() = Some(2);
    ui.execute(Command::SelectNext, &mut app);
    assert_eq!(ui.list.state.selected(), Some(2));
}

#[test]
fn select_prev_from_none() {
    let mut ui = make_ui();
    let mut app = make_app(3);
    ui.execute(Command::SelectPrev, &mut app);
    assert_eq!(ui.list.state.selected(), Some(0));
}

#[test]
fn ui_select_prev_clamps_at_start() {
    let mut ui = make_ui();
    let mut app = make_app(3);
    *ui.list.state.selected_mut() = Some(0);
    ui.execute(Command::SelectPrev, &mut app);
    assert_eq!(ui.list.state.selected(), Some(0));
}

#[test]
fn tests_select_prev_clamps_at_start() {
    let mut ui = make_ui();
    let mut app = make_app(3);
    *ui.list.state.selected_mut() = Some(0);
    ui.execute(Command::SelectPrev, &mut app);
    assert_eq!(ui.list.state.selected(), Some(0));
}

#[test]
fn select_next_noop_on_empty() {
    let mut ui = make_ui();
    let mut app = make_app(0);
    ui.execute(Command::SelectNext, &mut app);
    assert_eq!(ui.list.state.selected(), None);
}

#[test]
fn select_prev_decrements() {
    let mut ui = make_ui();
    let mut app = make_app(3);
    *ui.list.state.selected_mut() = Some(2);
    ui.execute(Command::SelectPrev, &mut app);
    assert_eq!(ui.list.state.selected(), Some(1));
}

#[test]
fn select_prev_noop_on_empty() {
    let mut ui = make_ui();
    let mut app = make_app(0);
    ui.execute(Command::SelectPrev, &mut app);
    assert_eq!(ui.list.state.selected(), None);
}

#[test]
fn select_next_scrolls_detail_instead_of_moving_list_in_detail_pane() {
    let mut ui = make_ui();
    let mut app = make_app(3);
    *ui.list.state.selected_mut() = Some(0);
    ui.detail.key = Some("check-0".to_string());
    ui.detail.open = true;
    ui.pane = Pane::Detail;
    ui.execute(Command::SelectNext, &mut app);
    assert_eq!(ui.list.state.selected(), Some(0), "list must not move");
    assert_eq!(ui.detail.stdout_scroll, 1, "scrolled instead");
    assert_eq!(ui.pane, Pane::Detail, "stays in detail pane");
}

#[test]
fn select_next_suite_is_a_noop_in_detail_pane() {
    let mut ui = make_ui();
    let mut app = make_suite_app();
    *ui.list.state.selected_mut() = Some(0);
    ui.pane = Pane::Detail;
    ui.execute(Command::NextSuite, &mut app);
    assert_eq!(ui.list.state.selected(), Some(0));
}

#[test]
fn selecting_next_returns_to_list_pane() {
    let mut ui = make_ui();
    let mut app = make_app(3);
    *ui.list.state.selected_mut() = Some(0);
    ui.execute(Command::SelectNext, &mut app);
    assert_eq!(ui.pane, Pane::List);
}

#[test]
fn selecting_a_check_points_the_panel_at_it() {
    let mut ui = make_ui();
    let mut app = make_suite_app();
    ui.execute(Command::SelectNext, &mut app);
    assert_eq!(ui.list.state.selected(), Some(0));
    assert_eq!(ui.detail.key.as_deref(), Some("db:alpha"));
    ui.execute(Command::SelectNext, &mut app);
    ui.execute(Command::SelectNext, &mut app);
    assert_eq!(ui.detail.key.as_deref(), Some("db:beta"));
}

// -- Dwim --

#[test]
fn dwim_on_suite_folds() {
    let mut ui = make_ui();
    let mut app = make_suite_app();
    *ui.list.state.selected_mut() = Some(0);
    ui.execute(Command::ToggleDwim, &mut app);
    assert!(app.folded_suites.contains("db"));
}

#[test]
fn dwim_on_suite_folds_even_when_detail_open() {
    let mut ui = make_ui();
    let mut app = make_suite_app();
    *ui.list.state.selected_mut() = Some(0);
    ui.detail.key = Some("db:alpha".to_string());
    ui.detail.open = true;
    ui.execute(Command::ToggleDwim, &mut app);
    assert!(app.folded_suites.contains("db"));
    assert!(ui.detail.open);
}

#[test]
fn dwim_on_check_opens_detail() {
    let mut ui = make_ui();
    let mut app = make_suite_app();
    *ui.list.state.selected_mut() = Some(1);
    ui.detail.key = Some("db:alpha".to_string());
    ui.execute(Command::ToggleDwim, &mut app);
    assert!(ui.detail.open);
}

#[test]
fn dwim_on_check_with_children_still_opens_detail() {
    let mut ui = make_ui();
    let mut app = make_app_with_children();
    *ui.list.state.selected_mut() = Some(0);
    ui.detail.key = Some("snap".to_string());
    ui.execute(Command::ToggleDwim, &mut app);
    assert!(app.folded_checks.contains("snap"), "fold state untouched");
    assert!(ui.detail.open, "Dwim always opens detail on a check");
}

#[test]
fn dwim_on_check_closes_detail() {
    let mut ui = make_ui();
    let mut app = make_suite_app();
    *ui.list.state.selected_mut() = Some(1);
    ui.detail.key = Some("db:alpha".to_string());
    ui.detail.open = true;
    ui.execute(Command::ToggleDwim, &mut app);
    assert!(!ui.detail.open);
}

// -- Left/Right dwim --

#[test]
fn right_dwim_unfolds_folded_suite() {
    let mut ui = make_ui();
    let mut app = make_suite_app();
    app.toggle_suite("db");
    *ui.list.state.selected_mut() = Some(0);
    assert!(ui.execute(Command::RightDwim, &mut app));
    assert!(!app.folded_suites.contains("db"));
}

#[test]
fn right_dwim_on_unfolded_suite_moves_to_first_child() {
    let mut ui = make_ui();
    let mut app = make_suite_app();
    *ui.list.state.selected_mut() = Some(0);
    assert!(ui.execute(Command::RightDwim, &mut app));
    assert_eq!(ui.list.state.selected(), Some(1));
}

#[test]
fn right_dwim_unfolds_folded_children() {
    let mut ui = make_ui();
    let mut app = make_app_with_children();
    *ui.list.state.selected_mut() = Some(0);
    assert!(ui.execute(Command::RightDwim, &mut app));
    assert!(!app.folded_checks.contains("snap"));
}

#[test]
fn right_dwim_on_leaf_check_is_a_noop() {
    let mut ui = make_ui();
    let mut app = make_app(3);
    *ui.list.state.selected_mut() = Some(0);
    assert!(!ui.execute(Command::RightDwim, &mut app));
    assert_eq!(ui.list.state.selected(), Some(0));
}

#[test]
fn left_dwim_folds_unfolded_suite() {
    let mut ui = make_ui();
    let mut app = make_suite_app();
    *ui.list.state.selected_mut() = Some(0);
    assert!(ui.execute(Command::LeftDwim, &mut app));
    assert!(app.folded_suites.contains("db"));
}

#[test]
fn left_dwim_on_suite_child_moves_to_parent() {
    let mut ui = make_ui();
    let mut app = make_suite_app();
    *ui.list.state.selected_mut() = Some(1);
    assert!(ui.execute(Command::LeftDwim, &mut app));
    assert_eq!(ui.list.state.selected(), Some(0));
}

#[test]
fn left_dwim_on_top_level_flat_check_is_a_noop() {
    let mut ui = make_ui();
    let mut app = make_app(3);
    *ui.list.state.selected_mut() = Some(0);
    assert!(!ui.execute(Command::LeftDwim, &mut app));
    assert_eq!(ui.list.state.selected(), Some(0));
}

#[test]
fn right_dwim_is_suppressed_in_detail_pane() {
    let mut ui = make_ui();
    let mut app = make_app_with_children();
    *ui.list.state.selected_mut() = Some(0);
    ui.pane = Pane::Detail;
    assert!(!ui.execute(Command::RightDwim, &mut app));
    assert!(app.folded_checks.contains("snap"), "must not unfold");
}

#[test]
fn left_dwim_scrolls_instead_of_folding_in_detail_pane() {
    let mut ui = make_ui();
    let mut app = make_app_with_children();
    *ui.list.state.selected_mut() = Some(0);
    app.toggle_children("snap");
    ui.pane = Pane::Detail;
    ui.detail.stdout_h_scroll = 5;
    assert!(!ui.execute(Command::LeftDwim, &mut app));
    assert!(!app.folded_checks.contains("snap"), "must not fold");
    assert_eq!(ui.pane, Pane::Detail);
}

#[test]
fn left_dwim_exits_detail_pane_and_folds_when_scrolled_fully_left() {
    let mut ui = make_ui();
    let mut app = make_app_with_children();
    *ui.list.state.selected_mut() = Some(0);
    app.toggle_children("snap");
    ui.pane = Pane::Detail;
    ui.detail.stdout_h_scroll = 0;
    assert!(ui.execute(Command::LeftDwim, &mut app));
    assert_eq!(ui.pane, Pane::List);
    assert!(app.folded_checks.contains("snap"));
}

// -- Pane --

#[test]
fn open_detail_switches_to_detail_pane() {
    let mut ui = make_ui();
    let mut app = make_app(1);
    *ui.list.state.selected_mut() = Some(0);
    ui.detail.key = Some("check-0".to_string());
    assert!(ui.execute(Command::OpenDetail, &mut app));
    assert_eq!(ui.pane, Pane::Detail);
}

#[test]
fn toggle_detail_opening_leaves_pane_at_list() {
    let mut ui = make_ui();
    let mut app = make_app(1);
    ui.detail.key = Some("check-0".to_string());
    ui.execute(Command::ToggleDetail, &mut app);
    assert!(ui.detail.open);
    assert_eq!(ui.pane, Pane::List);
}

#[test]
fn toggle_detail_closing_leaves_pane_unchanged() {
    let mut ui = make_ui();
    let mut app = make_app(1);
    ui.detail.key = Some("check-0".to_string());
    ui.detail.open = true;
    ui.pane = Pane::Detail;
    ui.execute(Command::ToggleDetail, &mut app);
    assert!(!ui.detail.open);
    assert_eq!(ui.pane, Pane::Detail);
}

#[test]
fn togglepane_enters_and_exits_detail() {
    let mut ui = make_ui();
    let mut app = make_app(1);
    ui.detail.key = Some("check-0".to_string());
    assert!(ui.execute(Command::TogglePane, &mut app));
    assert_eq!(ui.pane, Pane::Detail);
    assert!(ui.detail.open, "entering detail pane opens the panel");
    assert!(ui.execute(Command::TogglePane, &mut app));
    assert_eq!(ui.pane, Pane::List);
}

#[test]
fn togglepane_is_a_noop_with_nothing_to_show() {
    let mut ui = make_ui();
    let mut app = make_app(1);
    assert!(!ui.execute(Command::TogglePane, &mut app));
    assert_eq!(ui.pane, Pane::List);
}

// -- Toggle detail --

#[test]
fn toggle_detail_requires_selection() {
    let mut ui = make_ui();
    let mut app = make_app(3);
    assert!(!ui.execute(Command::ToggleDetail, &mut app));
    assert!(!ui.detail.open);
}

#[test]
fn toggle_detail_opens_with_selection() {
    let mut ui = make_ui();
    let mut app = make_app(3);
    ui.execute(Command::SelectNext, &mut app);
    assert!(ui.execute(Command::ToggleDetail, &mut app));
    assert!(ui.detail.open);
}

#[test]
fn toggle_detail_closes() {
    let mut ui = make_ui();
    let mut app = make_app(3);
    *ui.list.state.selected_mut() = Some(0);
    ui.detail.key = Some("check-0".to_string());
    ui.detail.open = true;
    ui.execute(Command::ToggleDetail, &mut app);
    assert!(!ui.detail.open);
}

#[test]
fn toggle_detail_stays_open_when_suite_selected() {
    let mut ui = make_ui();
    let mut app = make_suite_app();
    ui.detail.key = Some("db:alpha".to_string());
    ui.detail.open = true;
    *ui.list.state.selected_mut() = Some(0);
    assert!(ui.execute(Command::ToggleDetail, &mut app));
    assert!(!ui.detail.open);
}

// -- Toggle focus --

#[test]
fn toggle_focus_requires_detail_open() {
    let mut ui = make_ui();
    let mut app = make_app(3);
    assert!(!ui.execute(Command::ToggleFocus, &mut app));
    assert_eq!(ui.detail.focus, DetailFocus::Stdout);
}

#[test]
fn toggle_focus_switches() {
    let mut ui = make_ui();
    let mut app = make_app(3);
    *ui.list.state.selected_mut() = Some(0);
    ui.detail.open = true;
    ui.execute(Command::ToggleFocus, &mut app);
    assert_eq!(ui.detail.focus, DetailFocus::Stderr);
}

#[test]
fn toggle_focus_stderr_to_stdout() {
    let mut ui = make_ui();
    let mut app = make_app(3);
    *ui.list.state.selected_mut() = Some(0);
    ui.detail.open = true;
    ui.detail.focus = DetailFocus::Stderr;
    ui.execute(Command::ToggleFocus, &mut app);
    assert_eq!(ui.detail.focus, DetailFocus::Stdout);
}

// -- Scroll --

#[test]
fn scroll_noop_without_detail() {
    let mut ui = make_ui();
    let mut app = make_app(3);
    assert!(!ui.execute(Command::ScrollDown, &mut app));
    assert_eq!(ui.detail.stdout_scroll, 0);
}

#[test]
fn scroll_down_increments() {
    let mut ui = make_ui();
    let mut app = make_app(3);
    *ui.list.state.selected_mut() = Some(0);
    ui.detail.key = Some("check-0".to_string());
    ui.detail.open = true;
    ui.detail.stdout_bounds = PanelBounds {
        height: 5,
        width: 80,
    };
    ui.execute(Command::ScrollDown, &mut app);
    // The output is empty, so there is nothing to scroll to.
    assert_eq!(ui.detail.stdout_scroll, 0);
}

#[test]
fn ui_page_down_increments_by_10() {
    let mut ui = make_ui();
    let mut app = make_app(1);
    set_stdout(&mut app, "check-0", "a\n".repeat(20));
    *ui.list.state.selected_mut() = Some(0);
    ui.detail.key = Some("check-0".to_string());
    ui.detail.open = true;
    ui.detail.stdout_bounds = PanelBounds {
        height: 5,
        width: 80,
    };
    ui.execute(Command::PageDown, &mut app);
    assert_eq!(ui.detail.stdout_scroll, 10);
}

#[test]
fn tests_page_down_increments_by_10() {
    let mut ui = make_ui();
    let mut app = make_app(1);
    set_stdout(&mut app, "check-0", "a\n".repeat(20));
    *ui.list.state.selected_mut() = Some(0);
    ui.detail.key = Some("check-0".to_string());
    ui.detail.open = true;
    ui.detail.stdout_bounds = PanelBounds {
        height: 5,
        width: 80,
    };
    ui.execute(Command::PageDown, &mut app);
    assert_eq!(ui.detail.stdout_scroll, 10);
}

#[test]
fn page_down_stops_at_the_last_screen() {
    let mut ui = make_ui();
    let mut app = make_app(1);
    set_stdout(&mut app, "check-0", "a\n".repeat(20));
    ui.detail.key = Some("check-0".to_string());
    ui.detail.open = true;
    ui.detail.stdout_bounds = PanelBounds {
        height: 5,
        width: 80,
    };
    ui.execute(Command::PageDown, &mut app);
    ui.execute(Command::PageDown, &mut app);
    // 20 lines in a 5-line panel: the last screen starts at line 15.
    assert_eq!(ui.detail.stdout_scroll, 15);
}

#[test]
fn ui_page_up_decrements_by_10() {
    let mut ui = make_ui();
    let mut app = make_app(1);
    set_stdout(&mut app, "check-0", "a\n".repeat(30));
    *ui.list.state.selected_mut() = Some(0);
    ui.detail.key = Some("check-0".to_string());
    ui.detail.open = true;
    ui.detail.stdout_bounds = PanelBounds {
        height: 5,
        width: 80,
    };
    ui.detail.stdout_scroll = 15;
    ui.execute(Command::PageUp, &mut app);
    assert_eq!(ui.detail.stdout_scroll, 5);
}

#[test]
fn tests_page_up_decrements_by_10() {
    let mut ui = make_ui();
    let mut app = make_app(1);
    set_stdout(&mut app, "check-0", "a\n".repeat(30));
    *ui.list.state.selected_mut() = Some(0);
    ui.detail.open = true;
    ui.detail.stdout_bounds = PanelBounds {
        height: 5,
        width: 80,
    };
    ui.detail.stdout_scroll = 15;
    ui.execute(Command::PageUp, &mut app);
    assert_eq!(ui.detail.stdout_scroll, 5);
}

#[test]
fn page_up_noop_without_detail() {
    let mut ui = make_ui();
    let mut app = make_app(1);
    assert!(!ui.execute(Command::PageUp, &mut app));
}

#[test]
fn page_down_noop_without_detail() {
    let mut ui = make_ui();
    let mut app = make_app(1);
    assert!(!ui.execute(Command::PageDown, &mut app));
}

#[test]
fn scroll_up_decrements() {
    let mut ui = make_ui();
    let mut app = make_app(1);
    set_stdout(&mut app, "check-0", "a\n".repeat(20));
    *ui.list.state.selected_mut() = Some(0);
    ui.detail.key = Some("check-0".to_string());
    ui.detail.open = true;
    ui.detail.stdout_bounds = PanelBounds {
        height: 5,
        width: 80,
    };
    ui.detail.stdout_scroll = 5;
    ui.execute(Command::ScrollUp, &mut app);
    assert_eq!(ui.detail.stdout_scroll, 4);
}

#[test]
fn scroll_up_noop_without_detail() {
    let mut ui = make_ui();
    let mut app = make_app(1);
    assert!(!ui.execute(Command::ScrollUp, &mut app));
}

#[test]
fn scroll_left_decrements() {
    let mut ui = make_ui();
    let mut app = make_app(1);
    set_stdout(&mut app, "check-0", "a".repeat(100));
    *ui.list.state.selected_mut() = Some(0);
    ui.detail.key = Some("check-0".to_string());
    ui.detail.open = true;
    ui.detail.stdout_bounds = PanelBounds {
        height: 5,
        width: 20,
    };
    ui.detail.stdout_h_scroll = 5;
    ui.execute(Command::ScrollLeft, &mut app);
    assert_eq!(ui.detail.stdout_h_scroll, 4);
}

#[test]
fn scroll_left_noop_without_detail() {
    let mut ui = make_ui();
    let mut app = make_app(1);
    assert!(!ui.execute(Command::ScrollLeft, &mut app));
}

#[test]
fn scroll_right_increments() {
    let mut ui = make_ui();
    let mut app = make_app(1);
    set_stdout(&mut app, "check-0", "a".repeat(100));
    *ui.list.state.selected_mut() = Some(0);
    ui.detail.key = Some("check-0".to_string());
    ui.detail.open = true;
    ui.detail.stdout_bounds = PanelBounds {
        height: 5,
        width: 20,
    };
    ui.execute(Command::ScrollRight, &mut app);
    assert_eq!(ui.detail.stdout_h_scroll, 1);
}

#[test]
fn scroll_right_noop_without_detail() {
    let mut ui = make_ui();
    let mut app = make_app(1);
    assert!(!ui.execute(Command::ScrollRight, &mut app));
}

#[test]
fn scroll_down_affects_stderr_when_focused() {
    let mut ui = make_ui();
    let mut app = make_app(1);
    set_stderr(&mut app, "check-0", "a\n".repeat(20));
    *ui.list.state.selected_mut() = Some(0);
    ui.detail.key = Some("check-0".to_string());
    ui.detail.open = true;
    ui.detail.focus = DetailFocus::Stderr;
    ui.detail.stderr_bounds = PanelBounds {
        height: 5,
        width: 80,
    };
    ui.execute(Command::ScrollDown, &mut app);
    assert_eq!(ui.detail.stderr_scroll, 1);
    assert_eq!(ui.detail.stdout_scroll, 0);
}

#[test]
fn scroll_right_affects_stderr_when_focused() {
    let mut ui = make_ui();
    let mut app = make_app(1);
    set_stderr(&mut app, "check-0", "a".repeat(100));
    *ui.list.state.selected_mut() = Some(0);
    ui.detail.key = Some("check-0".to_string());
    ui.detail.open = true;
    ui.detail.focus = DetailFocus::Stderr;
    ui.detail.stderr_bounds = PanelBounds {
        height: 5,
        width: 20,
    };
    ui.execute(Command::ScrollRight, &mut app);
    assert_eq!(ui.detail.stderr_h_scroll, 1);
    assert_eq!(ui.detail.stdout_h_scroll, 0);
}

// -- Quit and Reload are handed to the loop --

#[test]
fn quit_sends_event() {
    let mut ui = make_ui();
    let mut app = make_app(0);
    ui.execute(Command::Quit, &mut app);
    assert_eq!(ui.take_requests(), vec![Request::Quit]);
}

#[test]
fn reload_sends_event() {
    let mut ui = make_ui();
    let mut app = make_app(0);
    ui.execute(Command::Reload, &mut app);
    assert_eq!(ui.take_requests(), vec![Request::Reload]);
    assert!(ui.take_requests().is_empty());
}

// -- Toast and help --

#[test]
fn any_key_dismisses_toast() {
    let mut ui = make_ui();
    let mut app = make_app(0);
    let keymap = Keymap::qwerty();
    ui.toast = Some("error".to_string());
    ui.handle(&key_event(KeyCode::Char('x')), &mut app, &keymap);
    assert!(ui.toast.is_none());
}

#[test]
fn toast_blocks_command() {
    let mut ui = make_ui();
    let mut app = make_app(3);
    let keymap = Keymap::qwerty();
    *ui.list.state.selected_mut() = Some(0);
    ui.toast = Some("error".to_string());
    ui.handle(&key_event(KeyCode::Char('j')), &mut app, &keymap);
    assert_eq!(ui.list.state.selected(), Some(0));
}

#[test]
fn any_key_closes_help_before_running_commands() {
    let mut ui = make_ui();
    let mut app = make_app(3);
    let keymap = Keymap::qwerty();
    *ui.list.state.selected_mut() = Some(0);
    ui.show_help = true;
    ui.handle(&key_event(KeyCode::Char('j')), &mut app, &keymap);
    assert!(!ui.show_help);
    assert_eq!(ui.list.state.selected(), Some(0));
    ui.handle(&key_event(KeyCode::Char('?')), &mut app, &keymap);
    assert!(ui.show_help);
}

#[test]
fn unbound_key_is_noop() {
    let mut ui = make_ui();
    let mut app = make_app(3);
    let keymap = Keymap::qwerty();
    *ui.list.state.selected_mut() = Some(0);
    ui.handle(&key_event(KeyCode::Char('z')), &mut app, &keymap);
    assert_eq!(ui.list.state.selected(), Some(0));
}

// -- dispatch_commands: first applicable wins --

#[test]
fn dispatch_commands_stops_at_first_handled() {
    let mut ui = make_ui();
    let mut app = make_app(3);
    *ui.list.state.selected_mut() = Some(0);
    let cmds = [Command::ScrollDown, Command::SelectNext];
    ui.dispatch_commands(&cmds, &mut app);
    assert_eq!(ui.list.state.selected(), Some(1));
}

#[test]
fn ui_dispatch_commands_does_not_continue_after_handled() {
    let mut ui = make_ui();
    let mut app = make_app(3);
    *ui.list.state.selected_mut() = Some(0);
    let cmds = [Command::SelectNext, Command::SelectNext];
    ui.dispatch_commands(&cmds, &mut app);
    assert_eq!(ui.list.state.selected(), Some(1));
}

#[test]
fn tests_dispatch_commands_does_not_continue_after_handled() {
    let mut ui = make_ui();
    let mut app = make_app(3);
    *ui.list.state.selected_mut() = Some(0);
    let cmds = [Command::SelectNext, Command::SelectNext];
    ui.dispatch_commands(&cmds, &mut app);
    assert_eq!(ui.list.state.selected(), Some(1));
}

// -- Mouse --

#[test]
fn mouse_scroll_down_selects_next_on_list() {
    let mut ui = make_ui();
    let mut app = make_app(3);
    let keymap = Keymap::qwerty();
    *ui.list.state.selected_mut() = Some(0);
    ui.handle(&mouse_event(MouseKind::ScrollDown, 0), &mut app, &keymap);
    assert_eq!(ui.list.state.selected(), Some(1));
}

#[test]
fn mouse_scroll_up_selects_prev_on_list() {
    let mut ui = make_ui();
    let mut app = make_app(3);
    let keymap = Keymap::qwerty();
    *ui.list.state.selected_mut() = Some(1);
    ui.handle(&mouse_event(MouseKind::ScrollUp, 0), &mut app, &keymap);
    assert_eq!(ui.list.state.selected(), Some(0));
}

#[test]
fn ui_mouse_scroll_down_scrolls_detail_panel() {
    let mut ui = make_ui();
    let mut app = make_app(1);
    set_stdout(&mut app, "check-0", "a\n".repeat(20));
    let keymap = Keymap::qwerty();
    *ui.list.state.selected_mut() = Some(0);
    ui.detail.key = Some("check-0".to_string());
    ui.detail.open = true;
    ui.detail.stdout_bounds = PanelBounds {
        height: 5,
        width: 80,
    };
    let col = Ui::list_panel_width(&app);
    ui.handle(&mouse_event(MouseKind::ScrollDown, col), &mut app, &keymap);
    assert_eq!(ui.detail.stdout_scroll, 1);
}

#[test]
fn tests_mouse_scroll_down_scrolls_detail_panel() {
    let mut ui = make_ui();
    let mut app = make_app(1);
    set_stdout(&mut app, "check-0", "a\n".repeat(20));
    let keymap = Keymap::qwerty();
    *ui.list.state.selected_mut() = Some(0);
    ui.detail.key = Some("check-0".to_string());
    ui.detail.open = true;
    ui.detail.stdout_bounds = PanelBounds {
        height: 5,
        width: 80,
    };
    let col = Ui::list_panel_width(&app);
    ui.handle(&mouse_event(MouseKind::ScrollDown, col), &mut app, &keymap);
    assert_eq!(ui.detail.stdout_scroll, 1);
}

#[test]
fn mouse_scroll_up_scrolls_detail_panel() {
    let mut ui = make_ui();
    let mut app = make_app(1);
    set_stdout(&mut app, "check-0", "a\n".repeat(20));
    let keymap = Keymap::qwerty();
    *ui.list.state.selected_mut() = Some(0);
    ui.detail.key = Some("check-0".to_string());
    ui.detail.open = true;
    ui.detail.stdout_bounds = PanelBounds {
        height: 5,
        width: 80,
    };
    ui.detail.stdout_scroll = 3;
    let col = Ui::list_panel_width(&app);
    ui.handle(&mouse_event(MouseKind::ScrollUp, col), &mut app, &keymap);
    assert_eq!(ui.detail.stdout_scroll, 2);
}

#[test]
fn mouse_click_is_noop() {
    let mut ui = make_ui();
    let mut app = make_app(3);
    let keymap = Keymap::qwerty();
    *ui.list.state.selected_mut() = Some(0);
    ui.handle(&mouse_event(MouseKind::Other, 0), &mut app, &keymap);
    assert_eq!(ui.list.state.selected(), Some(0));
}

#[test]
fn list_panel_width_has_a_floor_and_fits_long_names() {
    let app = make_app(3);
    assert_eq!(Ui::list_panel_width(&app), 20);
    let mut app = App::new();
    app.upsert(plain_entry("a-check-with-a-rather-long-name", None));
    assert_eq!(Ui::list_panel_width(&app), 31 + 6);
}
