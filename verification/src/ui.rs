//! Window state and command routing: which pane has keyboard focus,
//! overlays (error toast, help), and how keys and the mouse wheel turn
//! into list navigation, folding and detail scrolling.
use vstd::prelude::*;

use crate::app::{
    all_keys_spec, prune_model, upsert_model, visible_spec, App, AppModel, CheckEntry, OrderItemView, VisibleItem,
    VisibleView,
};
use crate::detail_view::{
    apply_op, clamp_spec, detail_exec_spec, focused_h, focused_v, open_spec, reset_spec, synced_key,
    with_focused_v, DetailModel, DetailView, PanelBounds, ScrollOp,
};
use crate::keymap::{combo_of, Command, KeyEvent, Keymap};
use crate::list_view::{list_exec_spec, next_sel, prev_sel, toggle_suite_spec, DwimOutcome, ListView};
use crate::text::clamp_u16_spec;

verus! {

/// Which side of the window keyboard input goes to. While `Detail`, the
/// list-navigation commands scroll the detail panel instead.
#[derive(Debug, Clone, Copy, PartialEq, Eq, Structural)]
pub enum Pane {
    List,
    Detail,
}

impl Default for Pane {
    fn default() -> (r: Self)
        ensures
            r == Pane::List,
    {
        Pane::List
    }
}

/// Something the window asks the surrounding loop to do.
#[derive(Debug, Clone, Copy, PartialEq, Eq, Structural)]
pub enum Request {
    Quit,
    Reload,
}

#[derive(Debug, Clone, Copy, PartialEq, Eq, Structural)]
pub enum MouseKind {
    ScrollDown,
    ScrollUp,
    Other,
}

/// A mouse event: what happened, and the cell it happened over.
#[derive(Debug, Clone, Copy, PartialEq, Eq, Structural)]
pub struct MouseEvent {
    pub kind: MouseKind,
    pub column: u16,
    pub row: u16,
}

/// The window as plain values.
pub struct UiModel {
    pub sel: Option<usize>,
    pub offset: usize,
    pub detail: DetailModel,
    pub pane: Pane,
    pub toast: Option<Seq<char>>,
    pub show_help: bool,
    pub rebuilding: bool,
    pub watch_count: Option<usize>,
    pub requests: Seq<Request>,
}

/// After the selection moved: the panel follows it, scrolls reset, and
/// keyboard focus goes back to the list.
pub open spec fn after_sel(u: UiModel, m: AppModel) -> UiModel {
    let d1 = match u.sel {
        Some(idx) => DetailModel {
            key: match synced_key(m, idx as int) {
                Some(k) => Some(k),
                None => u.detail.key,
            },
            ..u.detail
        },
        None => u.detail,
    };
    UiModel { detail: reset_spec(d1), pane: Pane::List, ..u }
}

pub open spec fn apply_outcome(u: UiModel, m: AppModel, o: DwimOutcome) -> (UiModel, bool) {
    match o {
        DwimOutcome::Moved => (after_sel(u, m), true),
        DwimOutcome::Toggled => (u, true),
        DwimOutcome::Unhandled => (u, false),
    }
}

pub open spec fn list_step(u: UiModel, m: AppModel, cmd: Command) -> (UiModel, AppModel, bool) {
    let (sel, m2, o) = list_exec_spec(u.sel, m, cmd);
    let (u2, b) = apply_outcome(UiModel { sel, ..u }, m2, o);
    (u2, m2, b)
}

pub open spec fn detail_step(u: UiModel, m: AppModel, cmd: Command) -> (UiModel, AppModel, bool) {
    let (d, b) = detail_exec_spec(u.detail, m, cmd);
    (UiModel { detail: d, ..u }, m, b)
}

/// A list-navigation command while the detail pane has focus: it scrolls
/// the panel, except left when already scrolled fully left, which goes
/// back to the list and acts there.
pub open spec fn in_detail_step(u: UiModel, m: AppModel, cmd: Command) -> (UiModel, AppModel, bool) {
    if cmd == Command::LeftDwim && focused_h(u.detail) == 0 {
        list_step(UiModel { pane: Pane::List, ..u }, m, cmd)
    } else {
        detail_step(u, m, cmd)
    }
}

pub open spec fn toggle_suite_step(u: UiModel, m: AppModel) -> (UiModel, AppModel, bool) {
    let (m2, b) = toggle_suite_spec(u.sel, m);
    (u, m2, b)
}

pub open spec fn is_list_command(cmd: Command) -> bool {
    cmd == Command::SelectNext || cmd == Command::SelectPrev || cmd == Command::NextSuite || cmd
        == Command::PrevSuite || cmd == Command::RightDwim || cmd == Command::LeftDwim
}

/// What a command does to the window and the report, and whether it was
/// taken.
pub open spec fn ui_exec_spec(u: UiModel, m: AppModel, cmd: Command) -> (UiModel, AppModel, bool) {
    if is_list_command(cmd) {
        match u.pane {
            Pane::List => list_step(u, m, cmd),
            Pane::Detail => in_detail_step(u, m, cmd),
        }
    } else {
        match cmd {
            Command::Quit => (UiModel { requests: u.requests.push(Request::Quit), ..u }, m, true),
            Command::Reload => (UiModel { requests: u.requests.push(Request::Reload), ..u }, m, true),
            Command::ToggleDwim => {
                let vis = visible_spec(m);
                match u.sel {
                    Some(i) => if i < vis.len() {
                        match vis[i as int] {
                            VisibleView::Suite(_) => toggle_suite_step(u, m),
                            VisibleView::Check { .. } => detail_step(u, m, Command::ToggleDetail),
                        }
                    } else {
                        (u, m, false)
                    },
                    None => (u, m, false),
                }
            },
            Command::ToggleSuite => toggle_suite_step(u, m),
            Command::OpenDetail => {
                let (d, b) = detail_exec_spec(u.detail, m, cmd);
                (UiModel { detail: d, pane: if b { Pane::Detail } else { u.pane }, ..u }, m, b)
            },
            Command::TogglePane => match u.pane {
                Pane::List => {
                    let (d, b) = open_spec(u.detail);
                    (UiModel { detail: d, pane: if b { Pane::Detail } else { Pane::List }, ..u }, m, b)
                },
                Pane::Detail => (UiModel { pane: Pane::List, ..u }, m, true),
            },
            Command::ShowHelp => (UiModel { show_help: !u.show_help, ..u }, m, true),
            _ => detail_step(u, m, cmd),
        }
    }
}

/// Commands tried in turn until one is taken.
pub open spec fn dispatch_spec(u: UiModel, m: AppModel, cmds: Seq<Command>) -> (UiModel, AppModel)
    decreases cmds.len(),
{
    if cmds.len() == 0 {
        (u, m)
    } else {
        let (u2, m2, b) = ui_exec_spec(u, m, cmds[0]);
        if b {
            (u2, m2)
        } else {
            dispatch_spec(u2, m2, cmds.drop_first())
        }
    }
}

/// The widest name among the entries of `keys`, plus six, or 0.
pub open spec fn check_width(m: AppModel, keys: Seq<Seq<char>>) -> nat
    decreases keys.len(),
{
    if keys.len() == 0 {
        0
    } else {
        let w = check_width(m, keys.drop_last());
        let k = keys.last();
        if m.entries.contains_key(k) && m.entries[k].name.len() + 6 > w {
            m.entries[k].name.len() + 6
        } else {
            w
        }
    }
}

/// The widest suite name of `order`, plus six, or 0.
pub open spec fn suite_width(order: Seq<OrderItemView>) -> nat
    decreases order.len(),
{
    if order.len() == 0 {
        0
    } else {
        let w = suite_width(order.drop_last());
        match order.last() {
            OrderItemView::Suite { name, .. } => if name.len() + 6 > w {
                name.len() + 6
            } else {
                w
            },
            OrderItemView::Check(_) => w,
        }
    }
}

pub open spec fn max3(a: nat, b: nat, c: nat) -> nat {
    let ab = if a >= b {
        a
    } else {
        b
    };
    if ab >= c {
        ab
    } else {
        c
    }
}

/// The list panel's width: room for the widest check or suite name with
/// its marks, at least 20 columns.
pub open spec fn list_width_spec(m: AppModel) -> u16 {
    clamp_u16_spec(max3(check_width(m, all_keys_spec(m)), suite_width(m.order), 20) as int)
}

/// The mouse wheel: over the open detail panel it scrolls the focused
/// sub-panel; elsewhere it moves the list selection.
pub open spec fn mouse_spec(u: UiModel, m: AppModel, ev: MouseEvent) -> UiModel {
    let over_detail = u.detail.open && ev.column >= list_width_spec(m);
    let n = visible_spec(m).len() as int;
    match ev.kind {
        MouseKind::ScrollDown => if over_detail {
            UiModel {
                detail: clamp_spec(with_focused_v(u.detail, apply_op(ScrollOp::Add, focused_v(u.detail), 1)), m),
                ..u
            }
        } else if n > 0 {
            after_sel(UiModel { sel: next_sel(u.sel, n), ..u }, m)
        } else {
            u
        },
        MouseKind::ScrollUp => if over_detail {
            UiModel { detail: with_focused_v(u.detail, apply_op(ScrollOp::Sub, focused_v(u.detail), 1)), ..u }
        } else if n > 0 {
            after_sel(UiModel { sel: prev_sel(u.sel, n), ..u }, m)
        } else {
            u
        },
        MouseKind::Other => u,
    }
}

/// Input the window reacts to itself.
#[derive(Debug, Clone, Copy, PartialEq, Eq, Structural)]
pub enum UiEvent {
    Key(KeyEvent),
    Mouse(MouseEvent),
    Resize,
}

pub open spec fn handle_spec(u: UiModel, m: AppModel, km: Map<crate::keymap::KeyCombo, Seq<Command>>, ev: UiEvent) -> (UiModel, AppModel) {
    match ev {
        UiEvent::Key(key) => if u.toast is Some {
            (UiModel { toast: None, ..u }, m)
        } else if u.show_help {
            (UiModel { show_help: false, ..u }, m)
        } else if km.contains_key(combo_of(key)) {
            dispatch_spec(u, m, km[combo_of(key)])
        } else {
            (u, m)
        },
        UiEvent::Mouse(me) => (mouse_spec(u, m, me), m),
        UiEvent::Resize => (u, m),
    }
}

/// Top-level window state.
pub struct Ui {
    pub list: ListView,
    pub detail: DetailView,
    pub pane: Pane,
    pub toast: Option<String>,
    pub show_help: bool,
    pub rebuilding: bool,
    pub watch_count: Option<usize>,
    /// What the window asked of the surrounding loop and was not yet
    /// handed over by `take_requests`.
    pub requests: Vec<Request>,
}

impl Ui {
    /// The window as plain values.
    pub open spec fn view(&self) -> UiModel {
        UiModel {
            sel: self.list.state.selected,
            offset: self.list.state.offset,
            detail: self.detail@,
            pane: self.pane,
            toast: match self.toast {
                Some(t) => Some(t@),
                None => None,
            },
            show_help: self.show_help,
            rebuilding: self.rebuilding,
            watch_count: self.watch_count,
            requests: self.requests@,
        }
    }

    pub fn new() -> (r: Self)
        ensures
            r@.sel is None,
            r@.offset == 0,
            r@.detail.key is None,
            !r@.detail.open,
            r@.detail == (DetailModel {
                key: None,
                open: false,
                focus: crate::detail_view::DetailFocus::Stdout,
                stdout_scroll: 0,
                stdout_h_scroll: 0,
                stderr_scroll: 0,
                stderr_h_scroll: 0,
                stdout_bounds: PanelBounds { height: 0, width: 0 },
                stderr_bounds: PanelBounds { height: 0, width: 0 },
            }),
            r@.pane == Pane::List,
            r@.toast is None,
            !r@.show_help,
            r@.rebuilding,
            r@.watch_count is None,
            r@.requests == Seq::<Request>::empty(),
    {
        Ui {
            list: ListView::default(),
            detail: DetailView::default(),
            pane: Pane::default(),
            toast: None,
            show_help: false,
            rebuilding: true,
            watch_count: None,
            requests: Vec::new(),
        }
    }

    /// Hands over what the window has asked for since the last call, in
    /// order, and forgets it.
    pub fn take_requests(&mut self) -> (r: Vec<Request>)
        ensures
            r@ == old(self)@.requests,
            final(self)@ == (UiModel { requests: Seq::empty(), ..old(self)@ }),
    {
        let mut r: Vec<Request> = Vec::new();
        std::mem::swap(&mut r, &mut self.requests);
        assert(self@ == (UiModel { requests: Seq::empty(), ..old(self)@ }));
        r
    }

    pub fn set_toast(&mut self, msg: String)
        ensures
            final(self)@ == (UiModel { toast: Some(msg@), ..old(self)@ }),
    {
        self.toast = Some(msg);
    }

    pub fn set_panel_bounds(&mut self, stdout: PanelBounds, stderr: PanelBounds, app: &App)
        ensures
            final(self)@ == (UiModel {
                detail: clamp_spec(DetailModel { stdout_bounds: stdout, stderr_bounds: stderr, ..old(self)@.detail }, app@),
                ..old(self)@
            }),
    {
        self.detail.set_panel_bounds(stdout, stderr, app);
    }

    fn after_selection_change(&mut self, app: &App)
        ensures
            final(self)@ == after_sel(old(self)@, app@),
    {
        match self.list.selected() {
            Some(idx) => self.detail.sync_selection(app, idx),
            None => {},
        }
        self.detail.reset_scrolls();
        self.pane = Pane::List;
    }

    fn apply_dwim_outcome(&mut self, outcome: DwimOutcome, app: &App) -> (r: bool)
        ensures
            (final(self)@, r) == apply_outcome(old(self)@, app@, outcome),
    {
        match outcome {
            DwimOutcome::Moved => {
                self.after_selection_change(app);
                true
            },
            DwimOutcome::Toggled => true,
            DwimOutcome::Unhandled => false,
        }
    }

    fn list_step(&mut self, cmd: Command, app: &mut App) -> (r: bool)
        ensures
            (final(self)@, final(app)@, r) == list_step(old(self)@, old(app)@, cmd),
    {
        let outcome = self.list.execute(cmd, app);
        self.apply_dwim_outcome(outcome, app)
    }

    fn detail_step(&mut self, cmd: Command, app: &App) -> (r: bool)
        ensures
            (final(self)@, r) == (detail_step(old(self)@, app@, cmd).0, detail_step(old(self)@, app@, cmd).2),
    {
        self.detail.execute(cmd, app)
    }

    fn execute_in_detail(&mut self, cmd: Command, app: &mut App) -> (r: bool)
        ensures
            (final(self)@, final(app)@, r) == in_detail_step(old(self)@, old(app)@, cmd),
    {
        if cmd == Command::LeftDwim && self.detail.focused_h_scroll() == 0 {
            self.pane = Pane::List;
            return self.list_step(Command::LeftDwim, app);
        }
        self.detail_step(cmd, app)
    }

    /// Carries out a command. Returns whether it was taken. The commands
    /// that mean list navigation go to the list, or scroll the detail panel
    /// while it has focus; the rest are the panel's, the overlays', or
    /// requests to the surrounding loop.
    pub fn execute(&mut self, cmd: Command, app: &mut App) -> (r: bool)
        ensures
            (final(self)@, final(app)@, r) == ui_exec_spec(old(self)@, old(app)@, cmd),
    {
        match cmd {
            Command::SelectNext | Command::SelectPrev | Command::NextSuite | Command::PrevSuite
            | Command::RightDwim | Command::LeftDwim => match self.pane {
                Pane::List => self.list_step(cmd, app),
                Pane::Detail => self.execute_in_detail(cmd, app),
            },
            Command::Quit => {
                self.requests.push(Request::Quit);
                true
            },
            Command::Reload => {
                self.requests.push(Request::Reload);
                true
            },
            Command::ToggleDwim => {
                let visible = app.visible_items();
                assert(visible@.map_values(|v: VisibleItem| v@) == visible_spec(app@));
                match self.list.selected() {
                    Some(i) => if i < visible.len() {
                        assert(visible@[i as int]@ == visible_spec(app@)[i as int]);
                        match &visible[i] {
                            VisibleItem::Suite(_) => self.list.toggle_suite(app),
                            VisibleItem::Check { .. } => self.detail_step(Command::ToggleDetail, app),
                        }
                    } else {
                        false
                    },
                    None => false,
                }
            },
            Command::ToggleSuite => self.list.toggle_suite(app),
            Command::OpenDetail => {
                let handled = self.detail.execute(cmd, app);
                if handled {
                    self.pane = Pane::Detail;
                }
                handled
            },
            Command::TogglePane => match self.pane {
                Pane::List => {
                    if self.detail.open_panel() {
                        self.pane = Pane::Detail;
                        true
                    } else {
                        false
                    }
                },
                Pane::Detail => {
                    self.pane = Pane::List;
                    true
                },
            },
            Command::ShowHelp => {
                self.show_help = !self.show_help;
                true
            },
            _ => self.detail_step(cmd, app),
        }
    }

    /// Tries `commands` in turn and stops at the first one taken.
    pub fn dispatch_commands(&mut self, commands: &[Command], app: &mut App)
        ensures
            (final(self)@, final(app)@) == dispatch_spec(old(self)@, old(app)@, commands@),
    {
        let ghost target = dispatch_spec(self@, app@, commands@);
        let n = commands.len();
        let mut i: usize = 0;
        assert(commands@.skip(0) =~= commands@);
        while i < n
            invariant
                n == commands@.len(),
                i <= n,
                dispatch_spec(self@, app@, commands@.skip(i as int)) == target,
                target == dispatch_spec(old(self)@, old(app)@, commands@),
            decreases n - i,
        {
            let cmd = commands[i];
            proof {
                assert(commands@.skip(i as int)[0] == cmd);
                assert(commands@.skip(i as int).drop_first() =~= commands@.skip(i + 1));
            }
            let ghost u0 = self@;
            let ghost m0 = app@;
            let taken = self.execute(cmd, app);
            proof {
                let rest = commands@.skip(i as int);
                assert(dispatch_spec(u0, m0, rest) == (if taken {
                    (self@, app@)
                } else {
                    dispatch_spec(self@, app@, rest.drop_first())
                }));
            }
            if taken {
                return;
            }
            i = i + 1;
        }
    }

    /// Moves the list selection down, as the mouse wheel does over the
    /// list.
    fn select_next(&mut self, app: &App)
        ensures
            final(self)@ == (if visible_spec(app@).len() > 0 {
                after_sel(UiModel { sel: next_sel(old(self)@.sel, visible_spec(app@).len() as int), ..old(self)@ }, app@)
            } else {
                old(self)@
            }),
    {
        if self.list.select_next(app) {
            self.after_selection_change(app);
        }
    }

    fn select_prev(&mut self, app: &App)
        ensures
            final(self)@ == (if visible_spec(app@).len() > 0 {
                after_sel(UiModel { sel: prev_sel(old(self)@.sel, visible_spec(app@).len() as int), ..old(self)@ }, app@)
            } else {
                old(self)@
            }),
    {
        if self.list.select_prev(app) {
            self.after_selection_change(app);
        }
    }

    fn handle_mouse(&mut self, mouse: MouseEvent, app: &App)
        ensures
            final(self)@ == mouse_spec(old(self)@, app@, mouse),
    {
        let over_detail = self.detail.open && mouse.column >= Self::list_panel_width(app);
        match mouse.kind {
            MouseKind::ScrollDown => {
                if over_detail {
                    self.detail.nudge_scroll_down(app);
                } else {
                    self.select_next(app);
                }
            },
            MouseKind::ScrollUp => {
                if over_detail {
                    self.detail.nudge_scroll_up();
                } else {
                    self.select_prev(app);
                }
            },
            MouseKind::Other => {},
        }
    }

    /// Reacts to a key or mouse event: a key press first closes the error
    /// toast, then the help overlay, and otherwise runs the commands bound
    /// to it; the mouse wheel scrolls or moves the selection.
    pub fn handle(&mut self, event: &UiEvent, app: &mut App, keymap: &Keymap)
        ensures
            (final(self)@, final(app)@) == handle_spec(old(self)@, old(app)@, keymap@, *event),
    {
        match event {
            UiEvent::Key(key) => {
                if self.toast.is_some() {
                    self.toast = None;
                } else if self.show_help {
                    self.show_help = false;
                } else {
                    match keymap.lookup(key) {
                        Some(cmds) => self.dispatch_commands(cmds, app),
                        None => {},
                    }
                }
            },
            UiEvent::Mouse(mouse) => self.handle_mouse(*mouse, app),
            UiEvent::Resize => {},
        }
    }

    /// The width of the list panel: the widest check or suite name plus
    /// six columns for its marks, at least 20, clamped to `u16`.
    pub fn list_panel_width(app: &App) -> (r: u16)
        ensures
            r == list_width_spec(app@),
    {
        let ghost m = app@;
        let keys = app.all_keys();
        let ghost kv = keys.deep_view();
        let n = keys.len();
        let mut cw: u128 = 0;
        let mut i: usize = 0;
        while i < n
            invariant
                n == keys@.len(),
                kv == keys.deep_view(),
                m == app@,
                i <= n,
                cw == check_width(m, kv.take(i as int)),
                cw <= usize::MAX + 6,
            decreases n - i,
        {
            proof {
                let t = kv.take(i + 1);
                assert(t.drop_last() =~= kv.take(i as int));
                assert(t.last() == kv[i as int]);
            }
            match app.entry(keys[i].as_str()) {
                Some(e) => {
                    let w = e.name.as_str().unicode_len() as u128 + 6;
                    if w > cw {
                        cw = w;
                    }
                },
                None => {},
            }
            i = i + 1;
        }
        assert(kv.take(n as int) =~= kv);
        let mut sw: u128 = 0;
        let on = app.order_len();
        let mut j: usize = 0;
        while j < on
            invariant
                on == m.order.len(),
                m == app@,
                j <= on,
                sw == suite_width(m.order.take(j as int)),
                sw <= usize::MAX + 6,
                cw <= usize::MAX + 6,
            decreases on - j,
        {
            proof {
                let t = m.order.take(j + 1);
                assert(t.drop_last() =~= m.order.take(j as int));
                assert(t.last() == m.order[j as int]);
            }
            match app.order_item(j) {
                crate::app::OrderItem::Suite { name, .. } => {
                    let w = name.as_str().unicode_len() as u128 + 6;
                    if w > sw {
                        sw = w;
                    }
                },
                crate::app::OrderItem::Check(_) => {},
            }
            j = j + 1;
        }
        assert(m.order.take(on as int) =~= m.order);
        let mut best = if cw >= sw {
            cw
        } else {
            sw
        };
        if best < 20 {
            best = 20;
        }
        if best > 65535 {
            65535
        } else {
            best as u16
        }
    }
}


/// The prefix that marks a remembered suite header, as opposed to a
/// check's key, while the report is rebuilt.
pub open spec fn suite_marker() -> Seq<char> {
    seq!['_', '_', 's', 'u', 'i', 't', 'e', '_', '_']
}

/// What a row is remembered by across a rebuild: a check by its key, a
/// suite header by its name behind the marker.
pub open spec fn anchor_of(v: VisibleView) -> Seq<char> {
    match v {
        VisibleView::Suite(name) => suite_marker() + name,
        VisibleView::Check { key, .. } => key,
    }
}

pub open spec fn is_suite_anchor(a: Seq<char>) -> bool {
    a.len() >= 9 && a.take(9) == suite_marker()
}

/// Whether row `v` is the one remembered as `a`.
pub open spec fn matches_anchor(v: VisibleView, a: Seq<char>) -> bool {
    if is_suite_anchor(a) {
        v matches VisibleView::Suite(n) && n == a.skip(9)
    } else {
        v matches VisibleView::Check { key, .. } && key == a
    }
}

/// `j` is the first row of `vis` remembered as `a`.
pub open spec fn is_first_match(vis: Seq<VisibleView>, a: Seq<char>, j: int) -> bool {
    &&& 0 <= j < vis.len()
    &&& matches_anchor(vis[j], a)
    &&& forall|k: int| 0 <= k < j ==> !matches_anchor(#[trigger] vis[k], a)
}

/// Where the selection goes once a rebuild is done: to the row it was
/// on, found again by key or suite name; failing that to the same
/// position, or the last row if the list got shorter; nowhere when the
/// list is empty or nothing was selected.
pub open spec fn reselect_spec(sel: Option<usize>, before: Seq<VisibleView>, after: Seq<VisibleView>) -> Option<usize> {
    if after.len() == 0 {
        None
    } else {
        match sel {
            Some(i) => if i < before.len() {
                let a = anchor_of(before[i as int]);
                if exists|j: int| is_first_match(after, a, j) {
                    Some((choose|j: int| is_first_match(after, a, j)) as usize)
                } else if i < after.len() {
                    Some(i)
                } else {
                    Some((after.len() - 1) as usize)
                }
            } else {
                None
            },
            None => None,
        }
    }
}

/// The report after a rebuild is done: what the rebuild did not upsert
/// is pruned and a new generation starts.
pub open spec fn rebuilt_model(m: AppModel) -> AppModel {
    AppModel { generation: (m.generation + 1) as u64, ..prune_model(m) }
}

/// The rows as plain values.
pub open spec fn rows_view(v: Seq<VisibleItem>) -> Seq<VisibleView> {
    v.map_values(|r: VisibleItem| r@)
}

/// The anchor of `v` as a string.
fn anchor_string(v: &VisibleItem) -> (r: String)
    ensures
        r@ == anchor_of(v@),
{
    match v {
        VisibleItem::Suite(name) => {
            let mut s = String::new();
            let mut k: usize = 0;
            while k < 2
                invariant
                    k <= 2,
                    s@ == Seq::new(k as nat, |i: int| '_'),
                decreases 2 - k,
            {
                crate::keymap::push_char(&mut s, '_');
                assert(s@ =~= Seq::new((k + 1) as nat, |i: int| '_'));
                k = k + 1;
            }
            crate::keymap::push_char(&mut s, 's');
            crate::keymap::push_char(&mut s, 'u');
            crate::keymap::push_char(&mut s, 'i');
            crate::keymap::push_char(&mut s, 't');
            crate::keymap::push_char(&mut s, 'e');
            crate::keymap::push_char(&mut s, '_');
            crate::keymap::push_char(&mut s, '_');
            assert(s@ =~= suite_marker());
            s.append(name.as_str());
            s
        },
        VisibleItem::Check { key, .. } => key.clone(),
    }
}

/// Whether `a` starts with the suite marker.
fn suite_anchor(a: &str) -> (r: bool)
    ensures
        r == is_suite_anchor(a@),
{
    if a.unicode_len() < 9 {
        return false;
    }
    let ghost m = suite_marker();
    let ok = a.get_char(0) == '_' && a.get_char(1) == '_' && a.get_char(2) == 's' && a.get_char(3) == 'u'
        && a.get_char(4) == 'i' && a.get_char(5) == 't' && a.get_char(6) == 'e' && a.get_char(7) == '_'
        && a.get_char(8) == '_';
    proof {
        if ok {
            assert(a@.take(9) =~= m);
        } else {
            assert(a@.take(9) != m) by {
                if a@.take(9) == m {
                    assert(a@.take(9)[0] == m[0] && a@.take(9)[1] == m[1] && a@.take(9)[2] == m[2]);
                    assert(a@.take(9)[3] == m[3] && a@.take(9)[4] == m[4] && a@.take(9)[5] == m[5]);
                    assert(a@.take(9)[6] == m[6] && a@.take(9)[7] == m[7] && a@.take(9)[8] == m[8]);
                }
            }
        }
    }
    ok
}

/// The first row of `vis` remembered as `a`, if any.
fn find_anchor(vis: &Vec<VisibleItem>, a: &str) -> (r: Option<usize>)
    ensures
        match r {
            Some(j) => is_first_match(rows_view(vis@), a@, j as int),
            None => !exists|j: int| #[trigger] is_first_match(rows_view(vis@), a@, j),
        },
{
    let ghost vs = rows_view(vis@);
    let is_suite = suite_anchor(a);
    let n = vis.len();
    let mut i: usize = 0;
    while i < n
        invariant
            n == vis@.len(),
            vs == rows_view(vis@),
            is_suite == is_suite_anchor(a@),
            i <= n,
            forall|k: int| 0 <= k < i ==> !matches_anchor(#[trigger] vs[k], a@),
        decreases n - i,
    {
        assert(vs[i as int] == vis@[i as int]@);
        let hit = match &vis[i] {
            VisibleItem::Suite(name) => if is_suite {
                let rest = a.substring_char(9, a.unicode_len());
                assert(rest@ =~= a@.skip(9));
                crate::table::str_equal(name.as_str(), rest)
            } else {
                false
            },
            VisibleItem::Check { key, .. } => if is_suite {
                false
            } else {
                crate::table::str_equal(key.as_str(), a)
            },
        };
        if hit {
            return Some(i);
        }
        i = i + 1;
    }
    proof {
        assert forall|j: int| !is_first_match(vs, a@, j) by {
            if 0 <= j < vs.len() {
                assert(!matches_anchor(vs[j], a@));
            }
        }
    }
    None
}

impl Ui {
    /// The selected row, moved without the panel following it.
    pub fn select_row(&mut self, sel: Option<usize>)
        ensures
            final(self)@ == (UiModel { sel, ..old(self)@ }),
    {
        self.list.state.select(sel);
    }

    /// An entry arrived from the running rebuild: it is upserted, and the
    /// first one of an empty report gets the selection.
    pub fn on_entry(&mut self, app: &mut App, entry: CheckEntry)
        ensures
            final(app)@ == upsert_model(old(app)@, entry),
            final(self)@ == (if old(app)@.order.len() == 0 {
                UiModel { sel: Some(0), ..old(self)@ }
            } else {
                old(self)@
            }),
    {
        let first = app.order_len() == 0;
        app.upsert(entry);
        if first {
            self.select_row(Some(0));
        }
    }

    /// The rebuild finished: stale entries go, a new generation starts,
    /// the loading mark clears, and the selection follows its row.
    pub fn on_done(&mut self, app: &mut App)
        requires
            old(app)@.generation < u64::MAX,
        ensures
            final(app)@ == rebuilt_model(old(app)@),
            final(self)@ == (UiModel {
                sel: reselect_spec(old(self)@.sel, visible_spec(old(app)@), visible_spec(rebuilt_model(old(app)@))),
                rebuilding: false,
                ..old(self)@
            }),
    {
        let before = app.visible_items();
        let ghost bv = before@.map_values(|v: VisibleItem| v@);
        let old_idx = self.list.selected();
        let anchor: Option<String> = match old_idx {
            Some(i) => if i < before.len() {
                assert(bv[i as int] == before@[i as int]@);
                Some(anchor_string(&before[i]))
            } else {
                None
            },
            None => None,
        };
        app.prune();
        app.bump_generation();
        self.rebuilding = false;
        let after = app.visible_items();
        let ghost av = after@.map_values(|v: VisibleItem| v@);
        let sel = if after.len() == 0 {
            None
        } else {
            match anchor {
                Some(a) => match find_anchor(&after, a.as_str()) {
                    Some(j) => {
                        proof {
                            assert(rows_view(after@) == av);
                            assert(is_first_match(av, a@, j as int));
                            let c = choose|j2: int| is_first_match(av, a@, j2);
                            assert(is_first_match(av, a@, c));
                            if c < j as int {
                                assert(!matches_anchor(av[c], a@));
                            }
                            if (j as int) < c {
                                assert(!matches_anchor(av[j as int], a@));
                            }
                        }
                        Some(j)
                    },
                    None => {
                        let i = old_idx.unwrap();
                        if i < after.len() {
                            Some(i)
                        } else {
                            Some(after.len() - 1)
                        }
                    },
                },
                None => None,
            }
        };
        proof {
            let m0 = old(app)@;
            assert(av == visible_spec(rebuilt_model(m0)));
            assert(bv == visible_spec(m0));
            assert(rows_view(after@) == av);
            assert(sel == reselect_spec(old_idx, bv, av));
        }
        self.select_row(sel);
    }

    /// A reload was asked for: a new generation starts and the loading
    /// mark shows until the rebuild is done.
    pub fn on_reload(&mut self, app: &mut App)
        requires
            old(app)@.generation < u64::MAX,
        ensures
            final(app)@ == (AppModel { generation: (old(app)@.generation + 1) as u64, ..old(app)@ }),
            final(self)@ == (UiModel { rebuilding: true, ..old(self)@ }),
    {
        app.bump_generation();
        self.rebuilding = true;
    }
}
} // verus!
