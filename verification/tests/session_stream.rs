use nrc::app::{App, CheckEntry, EntryKind, Status, VisibleItem};
use nrc::keymap::Command;
use nrc::stream::StreamState;
use nrc::ui::Ui;

fn entry(name: &str, status: Status, suite: Option<&str>) -> CheckEntry {
    CheckEntry {
        name: name.to_string(),
        status,
        kind: EntryKind::Result,
        exit_code: "0".to_string(),
        stdout: String::new(),
        stderr: String::new(),
        suite: suite.map(str::to_owned),
        children: Vec::new(),
    }
}

#[test]
fn first_entry_gets_the_selection() {
    let mut ui = Ui::new();
    let mut app = App::new();
    ui.on_entry(&mut app, entry("lint", Status::Pass, None));
    assert_eq!(ui.list.state.selected(), Some(0));
    ui.select_row(None);
    ui.on_entry(&mut app, entry("fmt", Status::Pass, None));
    assert_eq!(ui.list.state.selected(), None);
}

#[test]
fn done_clears_loading_and_starts_a_generation() {
    let mut ui = Ui::new();
    let mut app = App::new();
    assert!(ui.rebuilding);
    ui.on_entry(&mut app, entry("lint", Status::Pass, None));
    ui.on_done(&mut app);
    assert!(!ui.rebuilding);
    assert_eq!(app.generation(), 1);
    ui.on_reload(&mut app);
    assert!(ui.rebuilding);
    assert_eq!(app.generation(), 2);
}

#[test]
fn done_keeps_the_selection_on_its_check() {
    let mut ui = Ui::new();
    let mut app = App::new();
    for n in ["a", "b", "c"] {
        ui.on_entry(&mut app, entry(n, Status::Pass, None));
    }
    ui.on_done(&mut app);
    ui.select_row(Some(2));
    ui.on_reload(&mut app);
    // The rebuild drops "a"; "c" moves up to the second row.
    ui.on_entry(&mut app, entry("b", Status::Pass, None));
    ui.on_entry(&mut app, entry("c", Status::Pass, None));
    ui.on_done(&mut app);
    assert_eq!(app.all_keys(), vec!["b".to_string(), "c".to_string()]);
    assert_eq!(ui.list.state.selected(), Some(1));
}

#[test]
fn done_keeps_the_selection_on_its_suite() {
    let mut ui = Ui::new();
    let mut app = App::new();
    ui.on_entry(&mut app, entry("lint", Status::Pass, None));
    ui.on_entry(&mut app, entry("schema", Status::Pass, Some("db")));
    ui.on_done(&mut app);
    ui.select_row(Some(1));
    assert!(matches!(&app.visible_items()[1], VisibleItem::Suite(n) if n == "db"));
    ui.on_reload(&mut app);
    ui.on_entry(&mut app, entry("schema", Status::Pass, Some("db")));
    ui.on_done(&mut app);
    assert_eq!(ui.list.state.selected(), Some(0));
}

#[test]
fn done_falls_back_to_the_last_row() {
    let mut ui = Ui::new();
    let mut app = App::new();
    for n in ["a", "b", "c"] {
        ui.on_entry(&mut app, entry(n, Status::Pass, None));
    }
    ui.on_done(&mut app);
    ui.select_row(Some(2));
    ui.on_reload(&mut app);
    ui.on_entry(&mut app, entry("a", Status::Pass, None));
    ui.on_done(&mut app);
    assert_eq!(ui.list.state.selected(), Some(0));
}

#[test]
fn done_with_nothing_left_clears_the_selection() {
    let mut ui = Ui::new();
    let mut app = App::new();
    ui.on_entry(&mut app, entry("a", Status::Pass, None));
    ui.on_done(&mut app);
    ui.on_reload(&mut app);
    ui.on_done(&mut app);
    assert_eq!(app.order_len(), 0);
    assert!(app.entries.len() == 0);
    assert_eq!(ui.list.state.selected(), None);
}

#[test]
fn suite_marker_does_not_confuse_a_check_named_like_it() {
    let mut ui = Ui::new();
    let mut app = App::new();
    ui.on_entry(&mut app, entry("x", Status::Pass, None));
    ui.on_entry(&mut app, entry("y", Status::Pass, None));
    ui.on_done(&mut app);
    ui.select_row(Some(1));
    ui.on_reload(&mut app);
    ui.on_entry(&mut app, entry("y", Status::Pass, None));
    ui.on_entry(&mut app, entry("x", Status::Pass, None));
    ui.on_done(&mut app);
    // Rows keep their first-seen order, so "y" is still the second row.
    assert_eq!(ui.list.state.selected(), Some(1));
    let vis = app.visible_items();
    assert!(matches!(&vis[1], VisibleItem::Check { key, .. } if key == "y"));
}

#[test]
fn stream_emits_everything_once_then_only_changes() {
    let mut st = StreamState::new();
    st.on_entry(entry("lint", Status::Pass, None));
    st.on_entry(entry("schema", Status::Pass, Some("db")));
    let out = st.on_done();
    let names: Vec<&str> = out.iter().map(|e| e.name.as_str()).collect();
    assert_eq!(names, vec!["lint", "schema"]);
    assert!(!st.had_failure);

    st.on_reload();
    st.on_entry(entry("lint", Status::Pass, None));
    st.on_entry(entry("schema", Status::Fail, Some("db")));
    let out = st.on_done();
    assert_eq!(out.len(), 1);
    assert_eq!(out[0].name, "schema");
    assert_eq!(out[0].status, Status::Fail);
    assert!(st.had_failure);

    st.on_reload();
    st.on_entry(entry("lint", Status::Pass, None));
    st.on_entry(entry("schema", Status::Fail, Some("db")));
    assert!(st.on_done().is_empty());
    assert!(st.had_failure);
}

#[test]
fn stream_drops_what_a_rebuild_did_not_deliver() {
    let mut st = StreamState::new();
    st.on_entry(entry("a", Status::Pass, None));
    st.on_entry(entry("b", Status::Pass, None));
    assert_eq!(st.on_done().len(), 2);
    st.on_reload();
    st.on_entry(entry("b", Status::Pass, None));
    assert!(st.on_done().is_empty());
    assert!(!st.app.entries.contains_key("a"));
    assert!(st.app.entries.contains_key("b"));
}

#[test]
fn toggling_twice_restores_the_fold() {
    let mut app = App::new();
    app.upsert(entry("schema", Status::Pass, Some("db")));
    app.toggle_suite("db");
    assert!(app.suite_folded("db"));
    app.toggle_suite("db");
    assert!(!app.suite_folded("db"));
    let mut ui = Ui::new();
    ui.detail.key = Some("db:schema".to_string());
    ui.execute(Command::ToggleDetail, &mut app);
    ui.execute(Command::ToggleDetail, &mut app);
    assert!(!ui.detail.open);
}

#[test]
fn upserting_twice_is_upserting_once() {
    let mut once = App::new();
    let mut twice = App::new();
    let mut e = entry("snap", Status::Pass, None);
    e.children = vec![entry("actual", Status::Fail, None)];
    once.upsert(e.clone());
    twice.upsert(e.clone());
    twice.upsert(e);
    assert_eq!(once.all_keys(), twice.all_keys());
    assert_eq!(once.entries.len(), twice.entries.len());
    assert_eq!(once.check_folded("snap"), twice.check_folded("snap"));
    assert_eq!(once.counts(), twice.counts());
}

#[test]
fn counts_add_up_to_the_entries() {
    let mut app = App::new();
    app.upsert(entry("a", Status::Pass, None));
    app.upsert(entry("b", Status::Fail, None));
    app.upsert(entry("c", Status::Skip, Some("s")));
    let (p, f, s) = app.counts();
    assert_eq!(p + f + s, 3);
}

#[test]
fn a_read_gives_back_the_upserted_fields() {
    let mut app = App::new();
    let mut e = entry("snap", Status::Fail, Some("db"));
    e.stdout = "out".to_string();
    e.children = vec![entry("actual", Status::Pass, None)];
    app.upsert(e);
    let stored = app.entry("db:snap").unwrap();
    assert_eq!(stored.name, "snap");
    assert_eq!(stored.status, Status::Fail);
    assert_eq!(stored.stdout, "out");
    assert_eq!(stored.suite.as_deref(), Some("db"));
    assert!(stored.children.is_empty());
    assert_eq!(app.entry("db:snap:actual").unwrap().status, Status::Pass);
}

#[test]
fn a_stale_key_is_pruned_after_a_new_generation() {
    let mut app = App::new();
    app.upsert(entry("old", Status::Pass, None));
    app.bump_generation();
    app.upsert(entry("new", Status::Pass, None));
    app.prune();
    assert!(app.entry("old").is_none());
    assert!(app.entry("new").is_some());
}

#[test]
fn redelivery_keeps_the_users_fold() {
    let mut app = App::new();
    let mut e = entry("snap", Status::Pass, None);
    e.children = vec![entry("actual", Status::Pass, None)];
    app.upsert(e.clone());
    assert!(app.check_folded("snap"));
    app.toggle_children("snap");
    app.upsert(e);
    assert!(!app.check_folded("snap"));
}

#[test]
fn the_report_holds_together_after_rebuilds() {
    let mut app = App::new();
    let mut snap = entry("snap", Status::Pass, Some("db"));
    snap.children = vec![entry("actual", Status::Pass, None)];
    app.upsert(snap);
    app.upsert(entry("lint", Status::Fail, None));
    app.toggle_suite("nowhere");
    app.toggle_children("lint");
    assert!(app.suite_folded("nowhere"));
    app.bump_generation();
    app.upsert(entry("lint", Status::Pass, None));
    app.prune();
    for item in app.visible_items() {
        if let VisibleItem::Check { key, .. } = item {
            assert!(app.entry(&key).is_some());
        }
    }
    assert_eq!(app.order_len(), 1);
    assert!(!app.suite_folded("nowhere"));
    assert!(!app.check_folded("lint"));
}

#[test]
fn suite_jumps_past_the_end_do_nothing() {
    let mut app = App::new();
    app.upsert(entry("schema", Status::Pass, Some("db")));
    let mut lv = nrc::list_view::ListView::default();
    lv.state.select(Some(5));
    assert!(!lv.select_next_suite(&app));
    assert!(!lv.select_prev_suite(&app));
    assert_eq!(lv.selected(), Some(5));
    lv.state.select(Some(usize::MAX));
    assert!(!lv.select_next_suite(&app));
    lv.state.select(Some(2));
    assert!(lv.select_prev_suite(&app));
    assert_eq!(lv.selected(), Some(0));
}

#[test]
fn fold_marks_stay_on_checks_with_children() {
    let mut app = App::new();
    let mut e = entry("snap", Status::Pass, None);
    e.children = vec![entry("actual", Status::Pass, None)];
    app.upsert(e.clone());
    app.upsert(e);
    assert!(app.check_folded("snap"));
    assert!(app.has_children("snap"));
    // Delivered again without children, the fold mark stays but the links
    // go: the one case the upsert leaves a dangling mark.
    app.upsert(entry("snap", Status::Pass, None));
    assert!(app.check_folded("snap"));
    assert!(!app.has_children("snap"));
}
