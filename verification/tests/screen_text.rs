use nrc::app::{CheckEntry, EntryKind, Status};
use nrc::keymap::{Command, Keymap};
use nrc::screen::{
    check_label, combo_label, count_labels, describe_all, detail_header, help_rect, help_widths, inner_bounds, pad_right,
    panel_text, scrollbar, status_title, suite_label, toast_rect, Rect,
};
use nrc::keymap::{KeyCode, KeyCombo};
use nrc::wrap::{wrap_line_count, wrapped_line_height};

fn area(width: u16, height: u16) -> Rect {
    Rect {
        x: 0,
        y: 0,
        width,
        height,
    }
}

#[test]
fn fits_single_line() {
    assert_eq!(
        toast_rect("file not found", area(80, 24)),
        Rect {
            x: 31,
            y: 10,
            width: 18,
            height: 3
        }
    );
}

#[test]
fn wraps_long_message() {
    let msg = "this is a much longer error message that should wrap within the toast popup because it exceeds the maximum width";
    assert_eq!(
        toast_rect(msg, area(80, 24)),
        Rect {
            x: 10,
            y: 9,
            width: 60,
            height: 5
        }
    );
}

#[test]
fn clamps_to_terminal_width() {
    assert_eq!(
        toast_rect("this message is definitely wider than the terminal", area(20, 10)),
        Rect {
            x: 0,
            y: 2,
            width: 20,
            height: 6
        }
    );
}

#[test]
fn renders_empty_message() {
    assert_eq!(
        toast_rect("", area(80, 24)),
        Rect {
            x: 38,
            y: 10,
            width: 4,
            height: 3
        }
    );
}

#[test]
fn wrapping_breaks_at_spaces_and_inside_long_words() {
    assert_eq!(wrapped_line_height("", 5), 1);
    assert_eq!(wrapped_line_height("aaaaaaaaaa bb", 4), 4);
    assert_eq!(wrapped_line_height("hello world foo", 11), 2);
    assert_eq!(wrap_line_count("hello world", 5), 3);
    assert_eq!(wrap_line_count("ab\n\ncd", 5), 3);
    assert_eq!(wrap_line_count("anything", 0), 1);
    assert_eq!(wrap_line_count("", 10), 1);
}

#[test]
fn help_popup_fits_its_lines() {
    assert_eq!(
        help_rect(6, 10, 4, area(80, 24)),
        Rect {
            x: 28,
            y: 9,
            width: 24,
            height: 6
        }
    );
    assert_eq!(help_rect(60, 60, 40, area(80, 24)), area(80, 24));
    assert_eq!(pad_right("j", 3), "j  ");
    assert_eq!(pad_right("ctrl+c", 3), "ctrl+c");
}

#[test]
fn list_labels() {
    assert_eq!(status_title(true, Some(3)), " loading… ");
    assert_eq!(status_title(false, Some(12)), " watching 12 files ");
    assert_eq!(status_title(false, None), "");
    assert_eq!(
        count_labels(3, 1, 0),
        ("✓3".to_string(), "✗1".to_string(), "·0".to_string())
    );
    assert_eq!(suite_label("db", true), "▶ db (");
    assert_eq!(suite_label("db", false), "▼ db (");
    let e = CheckEntry {
        name: "check-foo".to_string(),
        status: Status::Fail,
        kind: EntryKind::Result,
        exit_code: String::new(),
        stdout: String::new(),
        stderr: String::new(),
        suite: Some("s".to_string()),
        children: Vec::new(),
    };
    assert_eq!(check_label(&e, 0), "✗ check-foo");
    assert_eq!(check_label(&e, 1), "  ✗ check-foo");
}

#[test]
fn detail_texts() {
    let mut e = CheckEntry {
        name: "x".to_string(),
        status: Status::Pass,
        kind: EntryKind::Snapshot,
        exit_code: String::new(),
        stdout: String::new(),
        stderr: String::new(),
        suite: None,
        children: Vec::new(),
    };
    assert_eq!(detail_header(&e), "Kind:      snapshot\nExit Code: (none)");
    e.kind = EntryKind::Result;
    e.exit_code = "2".to_string();
    assert_eq!(detail_header(&e), "Kind:      result\nExit Code: 2");
    assert_eq!(panel_text(""), "(empty)");
    assert_eq!(panel_text("out"), "out");
    assert_eq!(scrollbar(20, 5, 3), Some((15, 3)));
    assert_eq!(scrollbar(5, 5, 0), None);
    let b = inner_bounds(40, 1);
    assert_eq!((b.width, b.height), (38, 0));
}

#[test]
fn help_lines_follow_the_keymap() {
    let km = Keymap::qwerty();
    let lines = km.help_lines();
    assert_eq!(lines.len(), 27);
    assert_eq!(lines[0], ("q".to_string(), "quit".to_string()));
    assert_eq!(lines[1], ("ctrl+c".to_string(), "quit".to_string()));
    assert!(lines.contains(&("space".to_string(), "fold a suite, or show a check".to_string())));
    assert_eq!(combo_label(&KeyCombo::plain(KeyCode::PageDown)), "pagedown");
    assert_eq!(help_widths(&lines), (8, 32));
    assert_eq!(help_widths(&Vec::new()), (0, 0));
    assert_eq!(
        describe_all(&[Command::ScrollDown, Command::SelectNext]),
        "scroll down / next row"
    );
}

fn flat_entry(name: &str, status: Status) -> CheckEntry {
    CheckEntry {
        name: name.to_string(),
        status,
        kind: EntryKind::Result,
        exit_code: "0".to_string(),
        stdout: String::new(),
        stderr: String::new(),
        suite: None,
        children: Vec::new(),
    }
}

#[test]
fn shows_status_symbols() {
    let mut app = nrc::app::App::new();
    for (n, s) in [
        ("check-foo", Status::Pass),
        ("check-bar", Status::Fail),
        ("check-baz", Status::Skip),
    ] {
        app.upsert(flat_entry(n, s));
    }
    let rows: Vec<String> = app
        .visible_items()
        .iter()
        .map(|v| match v {
            nrc::app::VisibleItem::Check { key, depth } => check_label(app.entry(key).unwrap(), *depth),
            nrc::app::VisibleItem::Suite(n) => suite_label(n, false),
        })
        .collect();
    assert_eq!(rows, vec!["✓ check-foo", "✗ check-bar", "· check-baz"]);
    assert_eq!(
        count_labels(1, 1, 1),
        ("✓1".to_string(), "✗1".to_string(), "·1".to_string())
    );
}

#[test]
fn renders_empty() {
    let app = nrc::app::App::new();
    assert!(app.visible_items().is_empty());
    let (p, f, s) = app.counts();
    assert_eq!(
        count_labels(p, f, s),
        ("✓0".to_string(), "✗0".to_string(), "·0".to_string())
    );
}

#[test]
fn truncates_at_right_padding() {
    // A 20-column list has 16 columns inside its borders and padding; the
    // row is one column wider than that.
    let e = flat_entry("check-overflow!", Status::Pass);
    let row = check_label(&e, 0);
    assert_eq!(row, "✓ check-overflow!");
    assert_eq!(row.chars().count(), 17);
    assert_eq!(inner_bounds(20, 5).width - 2, 16);
}
