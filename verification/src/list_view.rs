//! The list panel: which row is selected, and the folding and moving that
//! the left/right commands do on it.
use vstd::prelude::*;

use crate::app::{has_children, toggled, visible_spec, App, AppModel, VisibleItem, VisibleView};
use crate::keymap::Command;

verus! {

/// Selection and scroll offset of a list widget. The offset is kept
/// across frames so the rows only scroll when the selection would leave
/// the screen.
#[derive(Debug, Clone, Copy, PartialEq, Eq, Structural)]
pub struct ListState {
    pub selected: Option<usize>,
    pub offset: usize,
}

impl Default for ListState {
    fn default() -> (r: Self)
        ensures
            r == (ListState { selected: None, offset: 0 }),
    {
        ListState { selected: None, offset: 0 }
    }
}

impl ListState {
    pub fn selected(&self) -> (r: Option<usize>)
        ensures
            r == self.selected,
    {
        self.selected
    }

    pub fn selected_mut(&mut self) -> (r: &mut Option<usize>)
        ensures
            *r == old(self).selected,
            *final(self) == (ListState { selected: *final(r), ..*old(self) }),
    {
        &mut self.selected
    }

    pub fn select(&mut self, selected: Option<usize>)
        ensures
            *final(self) == (ListState { selected, ..*old(self) }),
    {
        self.selected = selected;
    }
}

/// What a list command came to: the selection moved, a fold changed, or
/// nothing applied.
#[derive(Debug, Clone, Copy, PartialEq, Eq, Structural)]
pub enum DwimOutcome {
    Moved,
    Toggled,
    Unhandled,
}

/// The selection one row down, clamped to the last row; the first row
/// when nothing is selected. `None` when the list is empty.
pub open spec fn next_sel(sel: Option<usize>, n: int) -> Option<usize> {
    if n == 0 {
        None
    } else {
        match sel {
            None => Some(0),
            Some(i) => Some(if i + 1 <= n - 1 {
                (i + 1) as usize
            } else {
                (n - 1) as usize
            }),
        }
    }
}

/// The selection one row up, stopping at the first row.
pub open spec fn prev_sel(sel: Option<usize>, n: int) -> Option<usize> {
    if n == 0 {
        None
    } else {
        match sel {
            None => Some(0),
            Some(i) => Some(if i >= 1 {
                (i - 1) as usize
            } else {
                0
            }),
        }
    }
}

pub open spec fn is_suite_row(v: VisibleView) -> bool {
    v is Suite
}

/// The indent of a row: 0 for a suite header, its depth for a check.
pub open spec fn row_depth(v: VisibleView) -> int {
    match v {
        VisibleView::Suite(_) => 0,
        VisibleView::Check { depth, .. } => depth as int,
    }
}

/// `j` is the first suite header at or after `start`.
pub open spec fn first_suite_from(vis: Seq<VisibleView>, start: int, j: int) -> bool {
    &&& start <= j < vis.len()
    &&& is_suite_row(vis[j])
    &&& forall|k: int| start <= k < j ==> !is_suite_row(#[trigger] vis[k])
}

/// `j` is the last suite header before `end`.
pub open spec fn last_suite_before(vis: Seq<VisibleView>, end: int, j: int) -> bool {
    &&& 0 <= j < end
    &&& is_suite_row(vis[j])
    &&& forall|k: int| j < k < end ==> !is_suite_row(#[trigger] vis[k])
}

/// `j` is the row that `i` hangs under: the last row before it that is
/// less indented.
pub open spec fn parent_row(vis: Seq<VisibleView>, i: int, j: int) -> bool {
    &&& 0 <= j < i
    &&& row_depth(vis[j]) < row_depth(vis[i])
    &&& forall|k: int| j < k < i ==> row_depth(#[trigger] vis[k]) >= row_depth(vis[i])
}

pub open spec fn first_suite_at_or_after(vis: Seq<VisibleView>, start: int) -> Option<usize> {
    if exists|j: int| first_suite_from(vis, start, j) {
        Some((choose|j: int| first_suite_from(vis, start, j)) as usize)
    } else {
        None
    }
}

pub open spec fn last_suite_before_end(vis: Seq<VisibleView>, end: int) -> Option<usize> {
    if exists|j: int| last_suite_before(vis, end, j) {
        Some((choose|j: int| last_suite_before(vis, end, j)) as usize)
    } else {
        None
    }
}

/// The first suite header after the selected row (from the top when
/// nothing is selected).
pub open spec fn next_suite_spec(sel: Option<usize>, vis: Seq<VisibleView>) -> Option<usize> {
    match sel {
        None => first_suite_at_or_after(vis, 0),
        Some(i) => first_suite_at_or_after(vis, i + 1),
    }
}

/// The last suite header before the selected row; none when the
/// selection lies past the end of the list.
pub open spec fn prev_suite_spec(sel: Option<usize>, vis: Seq<VisibleView>) -> Option<usize> {
    match sel {
        None => last_suite_before_end(vis, 0),
        Some(i) => if i > vis.len() {
            None
        } else {
            last_suite_before_end(vis, i as int)
        },
    }
}

/// Right on a row: unfold a folded suite, or step onto an unfolded
/// suite's first check; unfold a check's folded children, or step onto
/// its first child. A row with nothing below it takes no action.
pub open spec fn right_spec(sel: Option<usize>, m: AppModel) -> (Option<usize>, AppModel, DwimOutcome) {
    let vis = visible_spec(m);
    match sel {
        Some(i) => if i < vis.len() {
            match vis[i as int] {
                VisibleView::Suite(name) => if m.folded_suites.contains(name) {
                    (sel, AppModel { folded_suites: toggled(m.folded_suites, name), ..m }, DwimOutcome::Toggled)
                } else if i + 1 < vis.len() && vis[i + 1] is Check && row_depth(vis[i + 1]) > 0 {
                    (Some((i + 1) as usize), m, DwimOutcome::Moved)
                } else {
                    (sel, m, DwimOutcome::Unhandled)
                },
                VisibleView::Check { key, .. } => if has_children(m, key) {
                    if m.folded_checks.contains(key) {
                        (sel, AppModel { folded_checks: toggled(m.folded_checks, key), ..m }, DwimOutcome::Toggled)
                    } else if i + 1 < vis.len() {
                        (Some((i + 1) as usize), m, DwimOutcome::Moved)
                    } else {
                        (sel, m, DwimOutcome::Unhandled)
                    }
                } else {
                    (sel, m, DwimOutcome::Unhandled)
                },
            }
        } else {
            (sel, m, DwimOutcome::Unhandled)
        },
        None => (sel, m, DwimOutcome::Unhandled),
    }
}

/// Left on a row: fold an unfolded suite; fold a check's shown children,
/// or step up onto the row it hangs under. A top-level row with nothing
/// to fold takes no action.
pub open spec fn left_spec(sel: Option<usize>, m: AppModel) -> (Option<usize>, AppModel, DwimOutcome) {
    let vis = visible_spec(m);
    match sel {
        Some(i) => if i < vis.len() {
            match vis[i as int] {
                VisibleView::Suite(name) => if !m.folded_suites.contains(name) {
                    (sel, AppModel { folded_suites: toggled(m.folded_suites, name), ..m }, DwimOutcome::Toggled)
                } else {
                    (sel, m, DwimOutcome::Unhandled)
                },
                VisibleView::Check { key, depth } => if has_children(m, key) && !m.folded_checks.contains(key) {
                    (sel, AppModel { folded_checks: toggled(m.folded_checks, key), ..m }, DwimOutcome::Toggled)
                } else if exists|j: int| parent_row(vis, i as int, j) {
                    (Some((choose|j: int| parent_row(vis, i as int, j)) as usize), m, DwimOutcome::Moved)
                } else {
                    (sel, m, DwimOutcome::Unhandled)
                },
            }
        } else {
            (sel, m, DwimOutcome::Unhandled)
        },
        None => (sel, m, DwimOutcome::Unhandled),
    }
}

/// Toggling the suite on the selected row, if the row is a suite header.
pub open spec fn toggle_suite_spec(sel: Option<usize>, m: AppModel) -> (AppModel, bool) {
    let vis = visible_spec(m);
    match sel {
        Some(i) => if i < vis.len() && vis[i as int] is Suite {
            (AppModel { folded_suites: toggled(m.folded_suites, vis[i as int]->Suite_0), ..m }, true)
        } else {
            (m, false)
        },
        None => (m, false),
    }
}

pub open spec fn moved_or(r: Option<usize>, sel: Option<usize>) -> (Option<usize>, DwimOutcome) {
    match r {
        Some(j) => (Some(j), DwimOutcome::Moved),
        None => (sel, DwimOutcome::Unhandled),
    }
}

/// What a list command does to the selection and the report's folds.
pub open spec fn list_exec_spec(sel: Option<usize>, m: AppModel, cmd: Command) -> (Option<usize>, AppModel, DwimOutcome) {
    let vis = visible_spec(m);
    let n = vis.len() as int;
    match cmd {
        Command::SelectNext => if n == 0 {
            (sel, m, DwimOutcome::Unhandled)
        } else {
            (next_sel(sel, n), m, DwimOutcome::Moved)
        },
        Command::SelectPrev => if n == 0 {
            (sel, m, DwimOutcome::Unhandled)
        } else {
            (prev_sel(sel, n), m, DwimOutcome::Moved)
        },
        Command::NextSuite => {
            let (s, o) = moved_or(next_suite_spec(sel, vis), sel);
            (s, m, o)
        },
        Command::PrevSuite => {
            let (s, o) = moved_or(prev_suite_spec(sel, vis), sel);
            (s, m, o)
        },
        Command::RightDwim => right_spec(sel, m),
        Command::LeftDwim => left_spec(sel, m),
        _ => (sel, m, DwimOutcome::Unhandled),
    }
}

/// State of the check list panel.
#[derive(Debug)]
pub struct ListView {
    pub state: ListState,
}

impl Default for ListView {
    fn default() -> (r: Self)
        ensures
            r.state == (ListState { selected: None, offset: 0 }),
    {
        ListView { state: ListState::default() }
    }
}

impl ListView {
    pub fn selected(&self) -> (r: Option<usize>)
        ensures
            r == self.state.selected,
    {
        self.state.selected
    }

    fn set_selected(&mut self, selected: Option<usize>)
        ensures
            final(self).state == (ListState { selected, ..old(self).state }),
    {
        self.state.select(selected);
    }

    /// Moves the selection to the next row. Returns `false` if the list is
    /// empty and nothing changed.
    pub fn select_next(&mut self, app: &App) -> (r: bool)
        ensures
            r == (visible_spec(app@).len() > 0),
            final(self).state == (ListState {
                selected: if r { next_sel(old(self).state.selected, visible_spec(app@).len() as int) } else { old(self).state.selected },
                ..old(self).state
            }),
    {
        let visible = app.visible_items();
        let n = visible.len();
        assert(n == visible_spec(app@).len());
        if n == 0 {
            return false;
        }
        let next = match self.selected() {
            None => 0,
            Some(i) => if i >= n - 1 {
                n - 1
            } else {
                i + 1
            },
        };
        self.set_selected(Some(next));
        true
    }

    /// Moves the selection to the previous row. Returns `false` if the
    /// list is empty and nothing changed.
    pub fn select_prev(&mut self, app: &App) -> (r: bool)
        ensures
            r == (visible_spec(app@).len() > 0),
            final(self).state == (ListState {
                selected: if r { prev_sel(old(self).state.selected, visible_spec(app@).len() as int) } else { old(self).state.selected },
                ..old(self).state
            }),
    {
        let visible = app.visible_items();
        let n = visible.len();
        assert(n == visible_spec(app@).len());
        if n == 0 {
            return false;
        }
        let prev = match self.selected() {
            None => 0,
            Some(i) => if i >= 1 {
                i - 1
            } else {
                0
            },
        };
        self.set_selected(Some(prev));
        true
    }

    /// Jumps to the next suite header after the selection (from the top
    /// when nothing is selected). Returns `false` if there is none.
    pub fn select_next_suite(&mut self, app: &App) -> (r: bool)
        ensures
            r == next_suite_spec(old(self).state.selected, visible_spec(app@)) is Some,
            final(self).state == (ListState {
                selected: if r { next_suite_spec(old(self).state.selected, visible_spec(app@)) } else { old(self).state.selected },
                ..old(self).state
            }),
    {
        let ghost vis = visible_spec(app@);
        let visible = app.visible_items();
        let n = visible.len();
        assert(n == vis.len());
        let start = match self.selected() {
            None => 0,
            Some(i) => {
                if i >= n {
                    proof {
                        assert forall|q: int| !#[trigger] first_suite_from(vis, i + 1, q) by {}
                    }
                    return false;
                }
                i + 1
            },
        };
        let mut j = start;
        while j < n
            invariant
                n == vis.len(),
                vis == visible_spec(app@),
                *self == *old(self),
                start == (match old(self).state.selected {
                    None => 0,
                    Some(i) => i + 1,
                }),
                visible@.map_values(|v: VisibleItem| v@) == vis,
                start <= j <= n,
                forall|k: int| start <= k < j ==> !is_suite_row(#[trigger] vis[k]),
            decreases n - j,
        {
            assert(visible@[j as int]@ == vis[j as int]);
            match &visible[j] {
                VisibleItem::Suite(_) => {
                    proof {
                        assert(first_suite_from(vis, start as int, j as int));
                        assert forall|q: int| first_suite_from(vis, start as int, q) implies q == j by {
                            if q < j {
                                assert(!is_suite_row(vis[q]));
                            } else if q > j {
                                assert(!is_suite_row(vis[j as int]));
                            }
                        }
                        let sp = match old(self).state.selected {
                            None => 0int,
                            Some(i) => i as int + 1,
                        };
                        assert(first_suite_from(vis, sp, j as int));
                    }
                    self.set_selected(Some(j));
                    return true;
                },
                VisibleItem::Check { .. } => {},
            }
            j = j + 1;
        }
        false
    }

    /// Jumps to the previous suite header before the selection. Returns
    /// `false` if there is none.
    pub fn select_prev_suite(&mut self, app: &App) -> (r: bool)
        ensures
            r == prev_suite_spec(old(self).state.selected, visible_spec(app@)) is Some,
            final(self).state == (ListState {
                selected: if r { prev_suite_spec(old(self).state.selected, visible_spec(app@)) } else { old(self).state.selected },
                ..old(self).state
            }),
    {
        let ghost vis = visible_spec(app@);
        let visible = app.visible_items();
        let end = match self.selected() {
            None => 0,
            Some(i) => {
                if i > visible.len() {
                    return false;
                }
                i
            },
        };
        let mut j = end;
        while j > 0
            invariant
                end <= vis.len(),
                vis == visible_spec(app@),
                *self == *old(self),
                end == (match old(self).state.selected {
                    None => 0,
                    Some(i) => i,
                }),
                visible@.map_values(|v: VisibleItem| v@) == vis,
                j <= end,
                forall|k: int| j <= k < end ==> !is_suite_row(#[trigger] vis[k]),
            decreases j,
        {
            let k = j - 1;
            assert(visible@[k as int]@ == vis[k as int]);
            match &visible[k] {
                VisibleItem::Suite(_) => {
                    proof {
                        assert(last_suite_before(vis, end as int, k as int));
                        assert forall|q: int| last_suite_before(vis, end as int, q) implies q == k by {
                            if q > k {
                                assert(!is_suite_row(vis[q]));
                            } else if q < k {
                                assert(!is_suite_row(vis[k as int]));
                            }
                        }
                        let ep = match old(self).state.selected {
                            None => 0int,
                            Some(i) => i as int,
                        };
                        assert(ep == end);
                        assert(last_suite_before(vis, ep, k as int));
                        assert(prev_suite_spec(old(self).state.selected, vis) == Some(k));
                    }
                    self.set_selected(Some(k));
                    return true;
                },
                VisibleItem::Check { .. } => {},
            }
            j = k;
        }
        false
    }

    fn right(&mut self, app: &mut App) -> (r: DwimOutcome)
        ensures
            (final(self).state.selected, final(app)@, r) == right_spec(old(self).state.selected, old(app)@),
            final(self).state.offset == old(self).state.offset,
    {
        let ghost vis = visible_spec(app@);
        let visible = app.visible_items();
        let n = visible.len();
        assert(n == vis.len());
        let i = match self.selected() {
            None => return DwimOutcome::Unhandled,
            Some(i) => i,
        };
        if i >= n {
            return DwimOutcome::Unhandled;
        }
        assert(visible@[i as int]@ == vis[i as int]);
        match &visible[i] {
            VisibleItem::Suite(name) => {
                if app.suite_folded(name.as_str()) {
                    app.toggle_suite(name.as_str());
                    DwimOutcome::Toggled
                } else if i + 1 < n {
                    assert(visible@[i + 1]@ == vis[i + 1]);
                    match &visible[i + 1] {
                        VisibleItem::Check { depth, .. } => {
                            if *depth > 0 {
                                self.set_selected(Some(i + 1));
                                DwimOutcome::Moved
                            } else {
                                DwimOutcome::Unhandled
                            }
                        },
                        VisibleItem::Suite(_) => DwimOutcome::Unhandled,
                    }
                } else {
                    DwimOutcome::Unhandled
                }
            },
            VisibleItem::Check { key, .. } => {
                if app.has_children(key.as_str()) {
                    if app.check_folded(key.as_str()) {
                        app.toggle_children(key.as_str());
                        DwimOutcome::Toggled
                    } else if i + 1 < n {
                        self.set_selected(Some(i + 1));
                        DwimOutcome::Moved
                    } else {
                        DwimOutcome::Unhandled
                    }
                } else {
                    DwimOutcome::Unhandled
                }
            },
        }
    }

    fn left(&mut self, app: &mut App) -> (r: DwimOutcome)
        ensures
            (final(self).state.selected, final(app)@, r) == left_spec(old(self).state.selected, old(app)@),
            final(self).state.offset == old(self).state.offset,
    {
        let ghost vis = visible_spec(app@);
        let visible = app.visible_items();
        let n = visible.len();
        assert(n == vis.len());
        let i = match self.selected() {
            None => return DwimOutcome::Unhandled,
            Some(i) => i,
        };
        if i >= n {
            return DwimOutcome::Unhandled;
        }
        assert(visible@[i as int]@ == vis[i as int]);
        match &visible[i] {
            VisibleItem::Suite(name) => {
                if !app.suite_folded(name.as_str()) {
                    app.toggle_suite(name.as_str());
                    DwimOutcome::Toggled
                } else {
                    DwimOutcome::Unhandled
                }
            },
            VisibleItem::Check { key, depth } => {
                if app.has_children(key.as_str()) && !app.check_folded(key.as_str()) {
                    app.toggle_children(key.as_str());
                    return DwimOutcome::Toggled;
                }
                let d = *depth;
                assert(row_depth(vis[i as int]) == d);
                let mut j = i;
                while j > 0
                    invariant
                        j <= i,
                        i < n,
                        n == vis.len(),
                        vis == visible_spec(app@),
                        *self == *old(self),
                        app@ == old(app)@,
                        old(self).state.selected == Some(i),
                        visible@.map_values(|v: VisibleItem| v@) == vis,
                        row_depth(vis[i as int]) == d,
                        vis[i as int] == (VisibleView::Check { key: key@, depth: d as nat }),
                        !(has_children(app@, key@) && !app@.folded_checks.contains(key@)),
                        forall|k: int| j <= k < i ==> row_depth(#[trigger] vis[k]) >= d,
                    decreases j,
                {
                    let k = j - 1;
                    assert(visible@[k as int]@ == vis[k as int]);
                    let kd: usize = match &visible[k] {
                        VisibleItem::Suite(_) => 0,
                        VisibleItem::Check { depth, .. } => *depth,
                    };
                    if kd < d {
                        proof {
                            assert(parent_row(vis, i as int, k as int));
                            assert forall|q: int| parent_row(vis, i as int, q) implies q == k by {
                                if q < k {
                                    assert(row_depth(vis[k as int]) >= row_depth(vis[i as int]));
                                } else if q > k {
                                    assert(row_depth(vis[q]) >= d);
                                }
                            }
                            assert(left_spec(old(self).state.selected, old(app)@) == (Some(k), old(app)@, DwimOutcome::Moved));
                        }
                        self.set_selected(Some(k));
                        return DwimOutcome::Moved;
                    }
                    j = k;
                }
                DwimOutcome::Unhandled
            },
        }
    }

    /// Carries out a list command: moving the selection, jumping between
    /// suites, or folding and stepping in and out with right and left.
    pub fn execute(&mut self, cmd: Command, app: &mut App) -> (r: DwimOutcome)
        ensures
            (final(self).state.selected, final(app)@, r) == list_exec_spec(old(self).state.selected, old(app)@, cmd),
            final(self).state.offset == old(self).state.offset,
    {
        match cmd {
            Command::SelectNext => if self.select_next(app) {
                DwimOutcome::Moved
            } else {
                DwimOutcome::Unhandled
            },
            Command::SelectPrev => if self.select_prev(app) {
                DwimOutcome::Moved
            } else {
                DwimOutcome::Unhandled
            },
            Command::NextSuite => if self.select_next_suite(app) {
                DwimOutcome::Moved
            } else {
                DwimOutcome::Unhandled
            },
            Command::PrevSuite => if self.select_prev_suite(app) {
                DwimOutcome::Moved
            } else {
                DwimOutcome::Unhandled
            },
            Command::RightDwim => self.right(app),
            Command::LeftDwim => self.left(app),
            _ => DwimOutcome::Unhandled,
        }
    }

    /// Folds or unfolds the suite on the selected row. Returns `false`
    /// when the selected row is not a suite header.
    pub fn toggle_suite(&self, app: &mut App) -> (r: bool)
        ensures
            (final(app)@, r) == toggle_suite_spec(self.state.selected, old(app)@),
    {
        let visible = app.visible_items();
        assert(visible@.map_values(|v: VisibleItem| v@) == visible_spec(app@));
        match self.selected() {
            Some(i) => if i < visible.len() {
                assert(visible@[i as int]@ == visible_spec(app@)[i as int]);
                match &visible[i] {
                    VisibleItem::Suite(name) => {
                        app.toggle_suite(name.as_str());
                        true
                    },
                    VisibleItem::Check { .. } => false,
                }
            } else {
                false
            },
            None => false,
        }
    }
}

} // verus!
