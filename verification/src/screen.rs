//! What the screen shows, as text and geometry: the labels of the list
//! rows and panel titles, the detail header, when scrollbars appear, the
//! help lines, and where the error and help popups go.
use vstd::prelude::*;

use crate::app::{CheckEntry, EntryKind, Status};
use crate::detail_view::{min_u16, PanelBounds};
use crate::keymap::{push_char, Command, KeyCode, KeyCombo, Keymap, CONTROL};
use crate::text::{clamp_u16, clamp_u16_spec, decimal, max_len, push_decimal, sat_sub};
use crate::wrap::{wrap_count_spec, wrap_line_count};

verus! {

/// A rectangle of terminal cells.
#[derive(Debug, Clone, Copy, PartialEq, Eq, Structural)]
pub struct Rect {
    pub x: u16,
    pub y: u16,
    pub width: u16,
    pub height: u16,
}

/// Offset that centres `inner` cells in `outer` cells.
pub open spec fn centre_spec(start: u16, outer: u16, inner: u16) -> int {
    start + sat_sub(outer as int, inner as int) / 2
}

/// Where the error popup goes for `msg` over `area`: as wide as the
/// message plus borders and padding, at most 60 columns and the area's
/// width; as tall as the wrapped message plus borders, at most the area's
/// height; centred.
pub open spec fn toast_rect_spec(msg: Seq<char>, area: Rect) -> Rect {
    let max_width = min_u16(area.width, 60);
    let width = min_u16(clamp_u16_spec(msg.len() + 4int), max_width);
    let inner = sat_sub(width as int, 4);
    let lines = wrap_count_spec(msg, inner as nat);
    let height = min_u16(clamp_u16_spec(lines + 2int), area.height);
    Rect {
        x: centre_spec(area.x, area.width, width) as u16,
        y: centre_spec(area.y, area.height, height) as u16,
        width,
        height,
    }
}

fn min16(a: u16, b: u16) -> (r: u16)
    ensures
        r == min_u16(a, b),
{
    if a <= b {
        a
    } else {
        b
    }
}

fn centre(start: u16, outer: u16, inner: u16) -> (r: u16)
    requires
        start + outer <= u16::MAX,
    ensures
        r == centre_spec(start, outer, inner),
{
    let gap = if outer >= inner {
        outer - inner
    } else {
        0
    };
    start + gap / 2
}

/// The error popup's place; see `toast_rect_spec`.
pub fn toast_rect(msg: &str, area: Rect) -> (r: Rect)
    requires
        msg@.len() < usize::MAX,
        area.x + area.width <= u16::MAX,
        area.y + area.height <= u16::MAX,
    ensures
        r == toast_rect_spec(msg@, area),
{
    let max_width = min16(area.width, 60);
    let len = msg.unicode_len();
    let wide = if len > 65535 {
        65535
    } else {
        clamp_u16(len + 4)
    };
    let width = min16(wide, max_width);
    let inner: usize = if width >= 4 {
        (width - 4) as usize
    } else {
        0
    };
    let lines = wrap_line_count(msg, inner);
    let tall = if lines > 65535 {
        65535
    } else {
        clamp_u16(lines + 2)
    };
    let height = min16(tall, area.height);
    Rect { x: centre(area.x, area.width, width), y: centre(area.y, area.height, height), width, height }
}

/// Where the help popup goes: room for the widest key, two spaces, the
/// widest description, borders and padding; a row per line plus
/// borders; within the area, centred.
pub open spec fn help_rect_spec(key_width: nat, desc_width: nat, rows: nat, area: Rect) -> Rect {
    let width = min_u16(clamp_u16_spec(key_width + desc_width + 8int), area.width);
    let height = min_u16(clamp_u16_spec(rows + 2int), area.height);
    Rect {
        x: centre_spec(area.x, area.width, width) as u16,
        y: centre_spec(area.y, area.height, height) as u16,
        width,
        height,
    }
}

pub fn help_rect(key_width: usize, desc_width: usize, rows: usize, area: Rect) -> (r: Rect)
    requires
        key_width + desc_width + 8 <= usize::MAX,
        rows + 2 <= usize::MAX,
        area.x + area.width <= u16::MAX,
        area.y + area.height <= u16::MAX,
    ensures
        r == help_rect_spec(key_width as nat, desc_width as nat, rows as nat, area),
{
    let width = min16(clamp_u16(key_width + 2 + desc_width + 6), area.width);
    let height = min16(clamp_u16(rows + 2), area.height);
    Rect { x: centre(area.x, area.width, width), y: centre(area.y, area.height, height), width, height }
}

/// `s` padded with spaces on the right to `width` characters.
pub open spec fn pad_spec(s: Seq<char>, width: nat) -> Seq<char> {
    s + Seq::new(sat_sub(width as int, s.len() as int) as nat, |i: int| ' ')
}

pub fn pad_right(s: &str, width: usize) -> (r: String)
    ensures
        r@ == pad_spec(s@, width as nat),
{
    let mut r = String::from_str(s);
    let n = s.unicode_len();
    let mut k = n;
    while k < width
        invariant
            n == s@.len(),
            n <= k <= width || (k == n && n >= width),
            r@ == s@ + Seq::new((k - n) as nat, |i: int| ' '),
        decreases width - k,
    {
        push_char(&mut r, ' ');
        assert(r@ =~= s@ + Seq::new((k + 1 - n) as nat, |i: int| ' '));
        k = k + 1;
    }
    assert(r@ =~= pad_spec(s@, width as nat));
    r
}

/// The mark at the foot of the list: loading while a rebuild runs, else
/// how many files are watched, else nothing.
pub open spec fn status_title_spec(rebuilding: bool, watch_count: Option<usize>) -> Seq<char> {
    if rebuilding {
        " loading… "@
    } else {
        match watch_count {
            Some(n) => " watching "@ + decimal(n as nat) + " files "@,
            None => Seq::empty(),
        }
    }
}

pub fn status_title(rebuilding: bool, watch_count: Option<usize>) -> (r: String)
    ensures
        r@ == status_title_spec(rebuilding, watch_count),
{
    if rebuilding {
        String::from_str(" loading… ")
    } else {
        match watch_count {
            Some(n) => {
                let mut s = String::from_str(" watching ");
                push_decimal(&mut s, n);
                s.append(" files ");
                s
            },
            None => String::new(),
        }
    }
}

/// The passed, failed and skipped counts, each behind its status glyph.
pub open spec fn count_labels_spec(pass: usize, fail: usize, skip: usize) -> (Seq<char>, Seq<char>, Seq<char>) {
    (
        Status::Pass.symbol_spec() + decimal(pass as nat),
        Status::Fail.symbol_spec() + decimal(fail as nat),
        Status::Skip.symbol_spec() + decimal(skip as nat),
    )
}

fn count_label(st: Status, n: usize) -> (r: String)
    ensures
        r@ == st.symbol_spec() + decimal(n as nat),
{
    let mut s = String::from_str(st.symbol());
    push_decimal(&mut s, n);
    s
}

pub fn count_labels(pass: usize, fail: usize, skip: usize) -> (r: (String, String, String))
    ensures
        (r.0@, r.1@, r.2@) == count_labels_spec(pass, fail, skip),
{
    (count_label(Status::Pass, pass), count_label(Status::Fail, fail), count_label(Status::Skip, skip))
}

/// A suite header up to its counts: the fold arrow, the name, and the
/// opening bracket.
pub open spec fn suite_label_spec(name: Seq<char>, folded: bool) -> Seq<char> {
    (if folded {
        seq!['▶']
    } else {
        seq!['▼']
    }) + seq![' '] + name + " ("@
}

pub fn suite_label(name: &str, folded: bool) -> (r: String)
    ensures
        r@ == suite_label_spec(name@, folded),
{
    let mut s = String::new();
    push_char(&mut s, if folded { '▶' } else { '▼' });
    push_char(&mut s, ' ');
    s.append(name);
    s.append(" (");
    s
}

/// A check row: two spaces per level of depth, the status glyph, and the
/// name.
pub open spec fn check_label_spec(status: Status, name: Seq<char>, depth: nat) -> Seq<char> {
    Seq::new(2 * depth, |i: int| ' ') + status.symbol_spec() + seq![' '] + name
}

pub fn check_label(entry: &CheckEntry, depth: usize) -> (r: String)
    requires
        2 * depth <= usize::MAX,
    ensures
        r@ == check_label_spec(entry.status, entry.name@, depth as nat),
{
    let mut s = String::new();
    let mut k: usize = 0;
    while k < 2 * depth
        invariant
            2 * depth <= usize::MAX,
            k <= 2 * depth,
            s@ == Seq::new(k as nat, |i: int| ' '),
        decreases 2 * depth - k,
    {
        push_char(&mut s, ' ');
        assert(s@ =~= Seq::new((k + 1) as nat, |i: int| ' '));
        k = k + 1;
    }
    s.append(entry.status.symbol());
    push_char(&mut s, ' ');
    s.append(entry.name.as_str());
    assert(s@ =~= check_label_spec(entry.status, entry.name@, depth as nat));
    s
}

pub open spec fn kind_label_spec(kind: EntryKind) -> Seq<char> {
    match kind {
        EntryKind::Result => "result"@,
        EntryKind::Snapshot => "snapshot"@,
        EntryKind::Eval => "eval"@,
    }
}

pub fn kind_label(kind: EntryKind) -> (r: String)
    ensures
        r@ == kind_label_spec(kind),
{
    match kind {
        EntryKind::Result => String::from_str("result"),
        EntryKind::Snapshot => String::from_str("snapshot"),
        EntryKind::Eval => String::from_str("eval"),
    }
}

/// The detail panel's header: the kind of the check and its exit code,
/// `(none)` when it has none.
pub open spec fn header_spec(kind: EntryKind, exit_code: Seq<char>) -> Seq<char> {
    "Kind:      "@ + kind_label_spec(kind) + "\nExit Code: "@ + (if exit_code.len() == 0 {
        "(none)"@
    } else {
        exit_code
    })
}

pub fn detail_header(entry: &CheckEntry) -> (r: String)
    ensures
        r@ == header_spec(entry.kind, entry.exit_code@),
{
    let mut s = String::from_str("Kind:      ");
    let k = kind_label(entry.kind);
    s.append(k.as_str());
    s.append("\nExit Code: ");
    if entry.exit_code.as_str().unicode_len() == 0 {
        s.append("(none)");
    } else {
        s.append(entry.exit_code.as_str());
    }
    s
}

/// What a stdout or stderr panel shows: the text, or `(empty)`.
pub open spec fn panel_text_spec(content: Seq<char>) -> Seq<char> {
    if content.len() == 0 {
        "(empty)"@
    } else {
        content
    }
}

pub fn panel_text(content: &str) -> (r: String)
    ensures
        r@ == panel_text_spec(content@),
{
    if content.unicode_len() == 0 {
        String::from_str("(empty)")
    } else {
        String::from_str(content)
    }
}

/// A scrollbar over `total` lines or columns of which `visible` show:
/// none when everything shows, else its length and position.
pub open spec fn scrollbar_spec(total: usize, visible: usize, pos: u16) -> Option<(usize, usize)> {
    if total > visible {
        Some(((total - visible) as usize, pos as usize))
    } else {
        None
    }
}

pub fn scrollbar(total: usize, visible: usize, pos: u16) -> (r: Option<(usize, usize)>)
    ensures
        r == scrollbar_spec(total, visible, pos),
{
    if total > visible {
        Some((total - visible, pos as usize))
    } else {
        None
    }
}

/// The inner size of a bordered panel of `width` by `height` cells.
pub fn inner_bounds(width: u16, height: u16) -> (r: PanelBounds)
    ensures
        r.width == sat_sub(width as int, 2),
        r.height == sat_sub(height as int, 2),
{
    let w: usize = if width >= 2 {
        (width - 2) as usize
    } else {
        0
    };
    let h: usize = if height >= 2 {
        (height - 2) as usize
    } else {
        0
    };
    PanelBounds { height: h, width: w }
}

/// How a key is named in the help: its name, with `ctrl+` before it when
/// held with Control.
pub open spec fn key_label_spec(code: KeyCode) -> Seq<char> {
    match code {
        KeyCode::Char(c) => if c == ' ' {
            "space"@
        } else {
            seq![c]
        },
        KeyCode::Esc => "esc"@,
        KeyCode::Enter => "enter"@,
        KeyCode::Tab => "tab"@,
        KeyCode::Backspace => "backspace"@,
        KeyCode::Delete => "delete"@,
        KeyCode::Up => "up"@,
        KeyCode::Down => "down"@,
        KeyCode::Left => "left"@,
        KeyCode::Right => "right"@,
        KeyCode::Home => "home"@,
        KeyCode::End => "end"@,
        KeyCode::PageUp => "pageup"@,
        KeyCode::PageDown => "pagedown"@,
        KeyCode::Other => "?"@,
    }
}

pub open spec fn combo_label_spec(k: KeyCombo) -> Seq<char> {
    (if k.modifiers == CONTROL {
        "ctrl+"@
    } else {
        Seq::empty()
    }) + key_label_spec(k.code)
}

fn key_label(code: KeyCode) -> (r: String)
    ensures
        r@ == key_label_spec(code),
{
    match code {
        KeyCode::Char(c) => if c == ' ' {
            String::from_str("space")
        } else {
            let mut s = String::new();
            push_char(&mut s, c);
            s
        },
        KeyCode::Esc => String::from_str("esc"),
        KeyCode::Enter => String::from_str("enter"),
        KeyCode::Tab => String::from_str("tab"),
        KeyCode::Backspace => String::from_str("backspace"),
        KeyCode::Delete => String::from_str("delete"),
        KeyCode::Up => String::from_str("up"),
        KeyCode::Down => String::from_str("down"),
        KeyCode::Left => String::from_str("left"),
        KeyCode::Right => String::from_str("right"),
        KeyCode::Home => String::from_str("home"),
        KeyCode::End => String::from_str("end"),
        KeyCode::PageUp => String::from_str("pageup"),
        KeyCode::PageDown => String::from_str("pagedown"),
        KeyCode::Other => String::from_str("?"),
    }
}

pub fn combo_label(k: &KeyCombo) -> (r: String)
    ensures
        r@ == combo_label_spec(*k),
{
    let mut s = if k.modifiers == CONTROL {
        String::from_str("ctrl+")
    } else {
        String::new()
    };
    let l = key_label(k.code);
    s.append(l.as_str());
    s
}

/// What a command does, in a few words.
pub open spec fn describe_spec(c: Command) -> Seq<char> {
    match c {
        Command::Quit => "quit"@,
        Command::Reload => "rebuild the report"@,
        Command::SelectNext => "next row"@,
        Command::SelectPrev => "previous row"@,
        Command::NextSuite => "next suite"@,
        Command::PrevSuite => "previous suite"@,
        Command::RightDwim => "unfold, or step into"@,
        Command::LeftDwim => "fold, or step out to the parent"@,
        Command::ToggleDwim => "fold a suite, or show a check"@,
        Command::ToggleSuite => "fold or unfold the suite"@,
        Command::OpenDetail => "open the detail pane"@,
        Command::TogglePane => "switch between list and detail"@,
        Command::ShowHelp => "show or hide this help"@,
        Command::ToggleDetail => "show or hide the detail panel"@,
        Command::ToggleFocus => "switch between stdout and stderr"@,
        Command::ScrollDown => "scroll down"@,
        Command::ScrollUp => "scroll up"@,
        Command::ScrollLeft => "scroll left"@,
        Command::ScrollRight => "scroll right"@,
        Command::PageDown => "page down"@,
        Command::PageUp => "page up"@,
    }
}

pub fn describe(c: Command) -> (r: String)
    ensures
        r@ == describe_spec(c),
{
    match c {
        Command::Quit => String::from_str("quit"),
        Command::Reload => String::from_str("rebuild the report"),
        Command::SelectNext => String::from_str("next row"),
        Command::SelectPrev => String::from_str("previous row"),
        Command::NextSuite => String::from_str("next suite"),
        Command::PrevSuite => String::from_str("previous suite"),
        Command::RightDwim => String::from_str("unfold, or step into"),
        Command::LeftDwim => String::from_str("fold, or step out to the parent"),
        Command::ToggleDwim => String::from_str("fold a suite, or show a check"),
        Command::ToggleSuite => String::from_str("fold or unfold the suite"),
        Command::OpenDetail => String::from_str("open the detail pane"),
        Command::TogglePane => String::from_str("switch between list and detail"),
        Command::ShowHelp => String::from_str("show or hide this help"),
        Command::ToggleDetail => String::from_str("show or hide the detail panel"),
        Command::ToggleFocus => String::from_str("switch between stdout and stderr"),
        Command::ScrollDown => String::from_str("scroll down"),
        Command::ScrollUp => String::from_str("scroll up"),
        Command::ScrollLeft => String::from_str("scroll left"),
        Command::ScrollRight => String::from_str("scroll right"),
        Command::PageDown => String::from_str("page down"),
        Command::PageUp => String::from_str("page up"),
    }
}

/// The description of commands tried in turn: theirs, joined by ` / `.
pub open spec fn describe_all_spec(cmds: Seq<Command>) -> Seq<char>
    decreases cmds.len(),
{
    if cmds.len() == 0 {
        Seq::empty()
    } else if cmds.len() == 1 {
        describe_spec(cmds[0])
    } else {
        describe_all_spec(cmds.drop_last()) + " / "@ + describe_spec(cmds.last())
    }
}

pub fn describe_all(cmds: &[Command]) -> (r: String)
    ensures
        r@ == describe_all_spec(cmds@),
{
    let mut s = String::new();
    let n = cmds.len();
    let mut i: usize = 0;
    while i < n
        invariant
            n == cmds@.len(),
            i <= n,
            s@ == describe_all_spec(cmds@.take(i as int)),
        decreases n - i,
    {
        proof {
            let t = cmds@.take(i + 1);
            assert(t.drop_last() =~= cmds@.take(i as int));
            assert(t.last() == cmds@[i as int]);
            if i == 0 {
                assert(t =~= seq![cmds@[0]]);
            }
        }
        if i > 0 {
            s.append(" / ");
        }
        let d = describe(cmds[i]);
        s.append(d.as_str());
        i = i + 1;
    }
    assert(cmds@.take(n as int) =~= cmds@);
    s
}

/// The help overlay's lines: for each binding, in the keymap's order, the
/// key and what it does.
pub open spec fn help_lines_spec(combos: Seq<KeyCombo>, map: Map<KeyCombo, Seq<Command>>) -> Seq<(Seq<char>, Seq<char>)> {
    Seq::new(combos.len(), |i: int| (combo_label_spec(combos[i]), describe_all_spec(map[combos[i]])))
}

/// The widest key and the widest description of the help lines.
pub open spec fn help_widths_spec(lines: Seq<(Seq<char>, Seq<char>)>) -> (nat, nat) {
    (max_len(lines.map_values(|l: (Seq<char>, Seq<char>)| l.0)), max_len(lines.map_values(|l: (Seq<char>, Seq<char>)| l.1)))
}

pub fn help_widths(lines: &Vec<(String, String)>) -> (r: (usize, usize))
    ensures
        (r.0 as nat, r.1 as nat) == help_widths_spec(lines@.map_values(|l: (String, String)| (l.0@, l.1@))),
{
    let ghost ls = lines@.map_values(|l: (String, String)| (l.0@, l.1@));
    let ghost ks = ls.map_values(|l: (Seq<char>, Seq<char>)| l.0);
    let ghost ds = ls.map_values(|l: (Seq<char>, Seq<char>)| l.1);
    let n = lines.len();
    let mut kw: usize = 0;
    let mut dw: usize = 0;
    let mut i: usize = 0;
    while i < n
        invariant
            n == lines@.len(),
            ls == lines@.map_values(|l: (String, String)| (l.0@, l.1@)),
            ks == ls.map_values(|l: (Seq<char>, Seq<char>)| l.0),
            ds == ls.map_values(|l: (Seq<char>, Seq<char>)| l.1),
            i <= n,
            kw == max_len(ks.take(i as int)),
            dw == max_len(ds.take(i as int)),
        decreases n - i,
    {
        proof {
            assert(ks.take(i + 1).drop_last() =~= ks.take(i as int));
            assert(ds.take(i + 1).drop_last() =~= ds.take(i as int));
            assert(ks.take(i + 1).last() == lines@[i as int].0@);
            assert(ds.take(i + 1).last() == lines@[i as int].1@);
        }
        let k = lines[i].0.as_str().unicode_len();
        let d = lines[i].1.as_str().unicode_len();
        if k > kw {
            kw = k;
        }
        if d > dw {
            dw = d;
        }
        i = i + 1;
    }
    assert(ks.take(n as int) =~= ks);
    assert(ds.take(n as int) =~= ds);
    (kw, dw)
}

impl Keymap {
    pub fn help_lines(&self) -> (r: Vec<(String, String)>)
        ensures
            r@.map_values(|l: (String, String)| (l.0@, l.1@)) == help_lines_spec(self.combos(), self@),
    {
        let b = self.bindings();
        let n = b.len();
        let mut out: Vec<(String, String)> = Vec::new();
        let mut i: usize = 0;
        while i < n
            invariant
                n == b.combos().len(),
                b@ == self@,
                b.combos() == self.combos(),
                i <= n,
                out@.len() == i,
                forall|k: int|
                    0 <= k < i ==> (#[trigger] out@[k]).0@ == combo_label_spec(b.combos()[k]) && out@[k].1@
                        == describe_all_spec(self@[b.combos()[k]]),
            decreases n - i,
        {
            let (k, cmds) = b.entry_at(i);
            let label = combo_label(k);
            let desc = describe_all(cmds.as_slice());
            out.push((label, desc));
            i = i + 1;
        }
        assert(out@.map_values(|l: (String, String)| (l.0@, l.1@)) =~= help_lines_spec(self.combos(), self@));
        out
    }
}

} // verus!
