//! The detail panel: which check it shows, whether it is open, which of
//! stdout and stderr has focus, and the scroll positions of both, kept
//! within what the content and the panel size allow.
use vstd::prelude::*;

use crate::app::{
    is_suite_named, suite_checks, visible_spec, App, AppModel, OrderItem, OrderItemView,
    VisibleItem, VisibleView,
};
use crate::keymap::Command;
use crate::text::{clamp_u16, clamp_u16_spec, line_stats, max_len, sat_sub, text_lines};

verus! {

/// Visible inner size of a scrollable panel (without its borders).
#[derive(Debug, Clone, Copy, PartialEq, Eq, Structural)]
pub struct PanelBounds {
    pub height: usize,
    pub width: usize,
}

impl Default for PanelBounds {
    fn default() -> (r: Self)
        ensures
            r == (PanelBounds { height: 0, width: 0 }),
    {
        PanelBounds { height: 0, width: 0 }
    }
}

#[derive(Debug, Clone, Copy, PartialEq, Eq, Structural)]
pub enum DetailFocus {
    Stdout,
    Stderr,
}

impl Default for DetailFocus {
    fn default() -> (r: Self)
        ensures
            r == DetailFocus::Stdout,
    {
        DetailFocus::Stdout
    }
}

pub open spec fn other_focus(f: DetailFocus) -> DetailFocus {
    match f {
        DetailFocus::Stdout => DetailFocus::Stderr,
        DetailFocus::Stderr => DetailFocus::Stdout,
    }
}

impl DetailFocus {
    pub fn toggle(&self) -> (r: Self)
        ensures
            r == other_focus(*self),
    {
        match self {
            DetailFocus::Stdout => DetailFocus::Stderr,
            DetailFocus::Stderr => DetailFocus::Stdout,
        }
    }
}

/// How a scroll position moves: up by the amount, or down, saturating.
#[derive(Debug, Clone, Copy, PartialEq, Eq, Structural)]
pub enum ScrollOp {
    Add,
    Sub,
}

pub open spec fn apply_op(op: ScrollOp, v: u16, amount: u16) -> u16 {
    match op {
        ScrollOp::Add => if v + amount > u16::MAX {
            u16::MAX
        } else {
            (v + amount) as u16
        },
        ScrollOp::Sub => if v >= amount {
            (v - amount) as u16
        } else {
            0
        },
    }
}

fn apply(op: ScrollOp, v: u16, amount: u16) -> (r: u16)
    ensures
        r == apply_op(op, v, amount),
{
    match op {
        ScrollOp::Add => v.saturating_add(amount),
        ScrollOp::Sub => v.saturating_sub(amount),
    }
}

/// The number of lines a panel shows for `text`: its lines, or one line
/// when it is empty.
pub open spec fn shown_lines(text: Seq<char>) -> int {
    if text.len() == 0 {
        1
    } else {
        text_lines(text).len() as int
    }
}

/// The furthest a panel of size `b` can scroll down and right over `text`.
pub open spec fn maxes_spec(text: Seq<char>, b: PanelBounds) -> (u16, u16) {
    (
        clamp_u16_spec(sat_sub(shown_lines(text), b.height as int)),
        clamp_u16_spec(sat_sub(max_len(text_lines(text)) as int, b.width as int)),
    )
}

/// The furthest a panel of size `bounds` can scroll down and right over
/// `content`.
pub fn content_maxes(content: &str, bounds: PanelBounds) -> (r: (u16, u16))
    ensures
        r == maxes_spec(content@, bounds),
{
    let (count, widest) = line_stats(content);
    let lines = if content.unicode_len() == 0 {
        1
    } else {
        count
    };
    let v = if lines >= bounds.height {
        lines - bounds.height
    } else {
        0
    };
    let h = if widest >= bounds.width {
        widest - bounds.width
    } else {
        0
    };
    (clamp_u16(v), clamp_u16(h))
}

/// State of the detail panel.
#[derive(Debug)]
pub struct DetailView {
    /// The key of the check shown. Set when navigation lands on a check;
    /// kept when it lands on a suite header with no check to show.
    pub key: Option<String>,
    pub open: bool,
    pub focus: DetailFocus,
    pub stdout_scroll: u16,
    pub stdout_h_scroll: u16,
    pub stderr_scroll: u16,
    pub stderr_h_scroll: u16,
    pub stdout_bounds: PanelBounds,
    pub stderr_bounds: PanelBounds,
}

/// The detail panel as plain values.
pub struct DetailModel {
    pub key: Option<Seq<char>>,
    pub open: bool,
    pub focus: DetailFocus,
    pub stdout_scroll: u16,
    pub stdout_h_scroll: u16,
    pub stderr_scroll: u16,
    pub stderr_h_scroll: u16,
    pub stdout_bounds: PanelBounds,
    pub stderr_bounds: PanelBounds,
}

impl DetailView {
    pub open spec fn view(&self) -> DetailModel {
        DetailModel {
            key: key_view(self.key),
            open: self.open,
            focus: self.focus,
            stdout_scroll: self.stdout_scroll,
            stdout_h_scroll: self.stdout_h_scroll,
            stderr_scroll: self.stderr_scroll,
            stderr_h_scroll: self.stderr_h_scroll,
            stdout_bounds: self.stdout_bounds,
            stderr_bounds: self.stderr_bounds,
        }
    }
}

pub open spec fn key_view(k: Option<String>) -> Option<Seq<char>> {
    match k {
        Some(s) => Some(s@),
        None => None,
    }
}

/// All scrolls back at the origin, focus back on stdout.
pub open spec fn reset_spec(d: DetailModel) -> DetailModel {
    DetailModel {
        stdout_scroll: 0,
        stdout_h_scroll: 0,
        stderr_scroll: 0,
        stderr_h_scroll: 0,
        focus: DetailFocus::Stdout,
        ..d
    }
}

pub open spec fn min_u16(a: u16, b: u16) -> u16 {
    if a <= b {
        a
    } else {
        b
    }
}

/// Every scroll held within what the shown check's content allows; no
/// change when no check is shown or its key has no entry.
pub open spec fn clamp_spec(d: DetailModel, m: AppModel) -> DetailModel {
    match d.key {
        Some(k) => if m.entries.contains_key(k) {
            let e = m.entries[k];
            let (sv, sh) = maxes_spec(e.stdout, d.stdout_bounds);
            let (ev, eh) = maxes_spec(e.stderr, d.stderr_bounds);
            DetailModel {
                stdout_scroll: min_u16(d.stdout_scroll, sv),
                stdout_h_scroll: min_u16(d.stdout_h_scroll, sh),
                stderr_scroll: min_u16(d.stderr_scroll, ev),
                stderr_h_scroll: min_u16(d.stderr_h_scroll, eh),
                ..d
            }
        } else {
            d
        },
        None => d,
    }
}

pub open spec fn focused_v(d: DetailModel) -> u16 {
    match d.focus {
        DetailFocus::Stdout => d.stdout_scroll,
        DetailFocus::Stderr => d.stderr_scroll,
    }
}

pub open spec fn focused_h(d: DetailModel) -> u16 {
    match d.focus {
        DetailFocus::Stdout => d.stdout_h_scroll,
        DetailFocus::Stderr => d.stderr_h_scroll,
    }
}

pub open spec fn with_focused_v(d: DetailModel, v: u16) -> DetailModel {
    match d.focus {
        DetailFocus::Stdout => DetailModel { stdout_scroll: v, ..d },
        DetailFocus::Stderr => DetailModel { stderr_scroll: v, ..d },
    }
}

pub open spec fn with_focused_h(d: DetailModel, v: u16) -> DetailModel {
    match d.focus {
        DetailFocus::Stdout => DetailModel { stdout_h_scroll: v, ..d },
        DetailFocus::Stderr => DetailModel { stderr_h_scroll: v, ..d },
    }
}

/// A vertical scroll of the focused sub-panel: refused while closed.
pub open spec fn scroll_v_spec(d: DetailModel, m: AppModel, op: ScrollOp, amount: u16) -> (DetailModel, bool) {
    if !d.open {
        (d, false)
    } else {
        (clamp_spec(with_focused_v(d, apply_op(op, focused_v(d), amount)), m), true)
    }
}

/// A horizontal scroll of the focused sub-panel: refused while closed.
pub open spec fn scroll_h_spec(d: DetailModel, m: AppModel, op: ScrollOp, amount: u16) -> (DetailModel, bool) {
    if !d.open {
        (d, false)
    } else {
        (clamp_spec(with_focused_h(d, apply_op(op, focused_h(d), amount)), m), true)
    }
}

/// Opening or closing: refused while no check is known.
pub open spec fn toggle_spec(d: DetailModel) -> (DetailModel, bool) {
    if d.key is None {
        (d, false)
    } else {
        (reset_spec(DetailModel { open: !d.open, ..d }), true)
    }
}

/// Opening: refused while no check is known; an open panel stays as is.
pub open spec fn open_spec(d: DetailModel) -> (DetailModel, bool) {
    if d.key is None {
        (d, false)
    } else if d.open {
        (d, true)
    } else {
        (reset_spec(DetailModel { open: true, ..d }), true)
    }
}

pub open spec fn toggle_focus_spec(d: DetailModel) -> (DetailModel, bool) {
    if !d.open {
        (d, false)
    } else {
        (DetailModel { focus: other_focus(d.focus), ..d }, true)
    }
}

/// What a command does to the panel, and whether the panel took it. The
/// list-navigation commands scroll instead: next/previous down/up by one,
/// right/left by one column; suite jumps are not the panel's.
pub open spec fn detail_exec_spec(d: DetailModel, m: AppModel, cmd: Command) -> (DetailModel, bool) {
    match cmd {
        Command::SelectNext => scroll_v_spec(d, m, ScrollOp::Add, 1),
        Command::SelectPrev => scroll_v_spec(d, m, ScrollOp::Sub, 1),
        Command::RightDwim => scroll_h_spec(d, m, ScrollOp::Add, 1),
        Command::LeftDwim => scroll_h_spec(d, m, ScrollOp::Sub, 1),
        Command::ToggleDetail => toggle_spec(d),
        Command::OpenDetail => open_spec(d),
        Command::ToggleFocus => toggle_focus_spec(d),
        Command::ScrollDown => scroll_v_spec(d, m, ScrollOp::Add, 1),
        Command::ScrollUp => scroll_v_spec(d, m, ScrollOp::Sub, 1),
        Command::ScrollRight => scroll_h_spec(d, m, ScrollOp::Add, 1),
        Command::ScrollLeft => scroll_h_spec(d, m, ScrollOp::Sub, 1),
        Command::PageDown => scroll_v_spec(d, m, ScrollOp::Add, 10),
        Command::PageUp => scroll_v_spec(d, m, ScrollOp::Sub, 10),
        _ => (d, false),
    }
}

/// `i` is the first position of `order` holding a suite named `name`
/// with at least one check.
pub open spec fn is_first_filled_suite(order: Seq<OrderItemView>, name: Seq<char>, i: int) -> bool {
    &&& 0 <= i < order.len()
    &&& is_suite_named(order[i], name) && suite_checks(order[i]).len() > 0
    &&& forall|j: int|
        0 <= j < i ==> !(is_suite_named(#[trigger] order[j], name) && suite_checks(order[j]).len() > 0)
}

/// The first check of the first suite named `name` that has one.
pub open spec fn first_check_of_suite(order: Seq<OrderItemView>, name: Seq<char>) -> Option<Seq<char>> {
    if exists|i: int| is_first_filled_suite(order, name, i) {
        let i = choose|i: int| is_first_filled_suite(order, name, i);
        Some(suite_checks(order[i])[0])
    } else {
        None
    }
}

/// The key the panel should show for row `idx` of the list: the check on
/// that row, or for a suite header its first check. `None` leaves the
/// shown key as it is.
pub open spec fn synced_key(m: AppModel, idx: int) -> Option<Seq<char>> {
    let vis = visible_spec(m);
    if 0 <= idx < vis.len() {
        match vis[idx] {
            VisibleView::Check { key, .. } => Some(key),
            VisibleView::Suite(name) => first_check_of_suite(m.order, name),
        }
    } else {
        None
    }
}

impl Default for DetailView {
    fn default() -> (r: Self)
        ensures
            r.key is None,
            !r.open,
            r.focus == DetailFocus::Stdout,
            r.stdout_scroll == 0 && r.stdout_h_scroll == 0,
            r.stderr_scroll == 0 && r.stderr_h_scroll == 0,
            r.stdout_bounds == (PanelBounds { height: 0, width: 0 }),
            r.stderr_bounds == (PanelBounds { height: 0, width: 0 }),
    {
        DetailView {
            key: None,
            open: false,
            focus: DetailFocus::Stdout,
            stdout_scroll: 0,
            stdout_h_scroll: 0,
            stderr_scroll: 0,
            stderr_h_scroll: 0,
            stdout_bounds: PanelBounds::default(),
            stderr_bounds: PanelBounds::default(),
        }
    }
}

impl DetailView {
    /// Shows the check at row `idx` of the list (for a suite header, its
    /// first check); leaves the shown key when the row resolves to none.
    pub fn sync_selection(&mut self, app: &App, idx: usize)
        ensures
            final(self)@ == (DetailModel {
                key: match synced_key(app@, idx as int) {
                    Some(k) => Some(k),
                    None => old(self)@.key,
                },
                ..old(self)@
            }),
    {
        let ghost m = app@;
        let visible = app.visible_items();
        proof {
            assert(visible@.map_values(|v: VisibleItem| v@) == visible_spec(m));
        }
        if idx >= visible.len() {
            return;
        }
        let item = &visible[idx];
        assert(item@ == visible_spec(m)[idx as int]);
        let ghost d0 = *self;
        match item {
            VisibleItem::Check { key, .. } => {
                self.key = Some(key.clone());
            },
            VisibleItem::Suite(name) => {
                let n = app.order_len();
                let ghost order = m.order;
                let mut i: usize = 0;
                while i < n
                    invariant
                        n == order.len(),
                        *self == d0,
                        d0 == *old(self),
                        idx < visible_spec(m).len(),
                        visible_spec(m)[idx as int] == VisibleView::Suite(name@),
                        order == app@.order,
                        m == app@,
                        i <= n,
                        forall|j: int|
                            0 <= j < i ==> !(is_suite_named(#[trigger] order[j], name@) && suite_checks(
                                order[j],
                            ).len() > 0),
                    decreases n - i,
                {
                    let item = app.order_item(i);
                    match item {
                        OrderItem::Suite { name: sname, checks } => {
                            if crate::table::str_equal(sname.as_str(), name.as_str()) && checks.len() > 0 {
                                proof {
                                    assert forall|j: int| is_first_filled_suite(order, name@, j) implies j == i by {
                                        if j > i {
                                            assert(!(is_suite_named(order[i as int], name@) && suite_checks(order[i as int]).len() > 0));
                                        }
                                    }
                                    assert(is_first_filled_suite(m.order, name@, i as int));
                                    assert(suite_checks(m.order[i as int]) == checks.deep_view());
                                    assert(first_check_of_suite(m.order, name@) == Some(checks@[0]@));
                                    assert(synced_key(m, idx as int) == Some(checks@[0]@));
                                }
                                self.key = Some(checks[0].clone());
                                return;
                            }
                        },
                        OrderItem::Check(_) => {},
                    }
                    i = i + 1;
                }
            },
        }
    }

    /// Opens or closes the panel, resetting the scrolls. Returns `false`
    /// when there is no check to show yet.
    pub fn toggle(&mut self) -> (r: bool)
        ensures
            (final(self)@, r) == toggle_spec(old(self)@),
    {
        if self.key.is_none() {
            return false;
        }
        self.open = !self.open;
        self.reset_scrolls();
        true
    }

    /// Opens the panel if it is closed. Returns `false` when there is no
    /// check to show yet.
    pub fn open_panel(&mut self) -> (r: bool)
        ensures
            (final(self)@, r) == open_spec(old(self)@),
    {
        if self.key.is_none() {
            return false;
        }
        if !self.open {
            self.open = true;
            self.reset_scrolls();
        }
        true
    }

    /// Moves focus between stdout and stderr. Returns `false` while the
    /// panel is closed.
    pub fn toggle_focus(&mut self) -> (r: bool)
        ensures
            (final(self)@, r) == toggle_focus_spec(old(self)@),
    {
        if !self.open {
            return false;
        }
        self.focus = self.focus.toggle();
        true
    }

    pub fn set_panel_bounds(&mut self, stdout: PanelBounds, stderr: PanelBounds, app: &App)
        ensures
            final(self)@ == clamp_spec(DetailModel { stdout_bounds: stdout, stderr_bounds: stderr, ..old(self)@ }, app@),
    {
        self.stdout_bounds = stdout;
        self.stderr_bounds = stderr;
        self.clamp_scrolls(app);
    }

    /// Scrolls the focused sub-panel vertically. Returns `false` while the
    /// panel is closed.
    pub fn scroll_v(&mut self, app: &App, op: ScrollOp, amount: u16) -> (r: bool)
        ensures
            (final(self)@, r) == scroll_v_spec(old(self)@, app@, op, amount),
    {
        if !self.open {
            return false;
        }
        let v = apply(op, self.focused_scroll(), amount);
        self.set_focused_scroll(v);
        self.clamp_scrolls(app);
        true
    }

    /// Scrolls the focused sub-panel horizontally. Returns `false` while
    /// the panel is closed.
    pub fn scroll_h(&mut self, app: &App, op: ScrollOp, amount: u16) -> (r: bool)
        ensures
            (final(self)@, r) == scroll_h_spec(old(self)@, app@, op, amount),
    {
        if !self.open {
            return false;
        }
        let v = apply(op, self.focused_h_scroll(), amount);
        self.set_focused_h_scroll(v);
        self.clamp_scrolls(app);
        true
    }

    /// One line down in the focused sub-panel, as a mouse wheel moves it.
    pub fn nudge_scroll_down(&mut self, app: &App)
        ensures
            final(self)@ == clamp_spec(
                with_focused_v(old(self)@, apply_op(ScrollOp::Add, focused_v(old(self)@), 1)),
                app@,
            ),
    {
        let v = apply(ScrollOp::Add, self.focused_scroll(), 1);
        self.set_focused_scroll(v);
        self.clamp_scrolls(app);
    }

    /// One line up in the focused sub-panel.
    pub fn nudge_scroll_up(&mut self)
        ensures
            final(self)@ == with_focused_v(old(self)@, apply_op(ScrollOp::Sub, focused_v(old(self)@), 1)),
    {
        let v = apply(ScrollOp::Sub, self.focused_scroll(), 1);
        self.set_focused_scroll(v);
    }

    fn clamp_scrolls(&mut self, app: &App)
        ensures
            final(self)@ == clamp_spec(old(self)@, app@),
    {
        let entry = match &self.key {
            Some(k) => app.entry(k.as_str()),
            None => None,
        };
        match entry {
            Some(e) => {
                let (sv, sh) = content_maxes(e.stdout.as_str(), self.stdout_bounds);
                let (ev, eh) = content_maxes(e.stderr.as_str(), self.stderr_bounds);
                self.stdout_scroll = if self.stdout_scroll <= sv {
                    self.stdout_scroll
                } else {
                    sv
                };
                self.stdout_h_scroll = if self.stdout_h_scroll <= sh {
                    self.stdout_h_scroll
                } else {
                    sh
                };
                self.stderr_scroll = if self.stderr_scroll <= ev {
                    self.stderr_scroll
                } else {
                    ev
                };
                self.stderr_h_scroll = if self.stderr_h_scroll <= eh {
                    self.stderr_h_scroll
                } else {
                    eh
                };
            },
            None => {},
        }
    }

    /// The vertical scroll of the focused sub-panel.
    pub fn focused_scroll(&self) -> (r: u16)
        ensures
            r == focused_v(self@),
    {
        match self.focus {
            DetailFocus::Stdout => self.stdout_scroll,
            DetailFocus::Stderr => self.stderr_scroll,
        }
    }

    /// The horizontal scroll of the focused sub-panel.
    pub fn focused_h_scroll(&self) -> (r: u16)
        ensures
            r == focused_h(self@),
    {
        match self.focus {
            DetailFocus::Stdout => self.stdout_h_scroll,
            DetailFocus::Stderr => self.stderr_h_scroll,
        }
    }

    fn set_focused_scroll(&mut self, v: u16)
        ensures
            final(self)@ == with_focused_v(old(self)@, v),
    {
        match self.focus {
            DetailFocus::Stdout => self.stdout_scroll = v,
            DetailFocus::Stderr => self.stderr_scroll = v,
        }
    }

    fn set_focused_h_scroll(&mut self, v: u16)
        ensures
            final(self)@ == with_focused_h(old(self)@, v),
    {
        match self.focus {
            DetailFocus::Stdout => self.stdout_h_scroll = v,
            DetailFocus::Stderr => self.stderr_h_scroll = v,
        }
    }

    pub fn reset_scrolls(&mut self)
        ensures
            final(self)@ == reset_spec(old(self)@),
    {
        self.stdout_scroll = 0;
        self.stdout_h_scroll = 0;
        self.stderr_scroll = 0;
        self.stderr_h_scroll = 0;
        self.focus = DetailFocus::Stdout;
    }

    /// Carries out `cmd` on the panel. Returns whether the panel took it.
    pub fn execute(&mut self, cmd: Command, app: &App) -> (r: bool)
        ensures
            (final(self)@, r) == detail_exec_spec(old(self)@, app@, cmd),
    {
        match cmd {
            Command::SelectNext => self.scroll_v(app, ScrollOp::Add, 1),
            Command::SelectPrev => self.scroll_v(app, ScrollOp::Sub, 1),
            Command::RightDwim => self.scroll_h(app, ScrollOp::Add, 1),
            Command::LeftDwim => self.scroll_h(app, ScrollOp::Sub, 1),
            Command::ToggleDetail => self.toggle(),
            Command::OpenDetail => self.open_panel(),
            Command::ToggleFocus => self.toggle_focus(),
            Command::ScrollDown => self.scroll_v(app, ScrollOp::Add, 1),
            Command::ScrollUp => self.scroll_v(app, ScrollOp::Sub, 1),
            Command::ScrollRight => self.scroll_h(app, ScrollOp::Add, 1),
            Command::ScrollLeft => self.scroll_h(app, ScrollOp::Sub, 1),
            Command::PageDown => self.scroll_v(app, ScrollOp::Add, 10),
            Command::PageUp => self.scroll_v(app, ScrollOp::Sub, 10),
            _ => false,
        }
    }
}

} // verus!
