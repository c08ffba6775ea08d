//! The report model: check entries keyed by suite and name, the order in
//! which they are listed, nested child checks, fold state, and the
//! generation counter that lets a reload drop what it no longer reports.
use vstd::prelude::*;

use crate::table::{filter_strings_in, in_set, lemma_filter_take_step, KeySet, Table};

verus! {

#[derive(Debug, Clone, Copy, PartialEq, Eq, Structural)]
pub enum Status {
    Pass,
    Fail,
    Skip,
}

impl Status {
    /// The glyph a check's status is drawn with.
    pub open spec fn symbol_spec(self) -> Seq<char> {
        match self {
            Status::Pass => seq!['✓'],
            Status::Fail => seq!['✗'],
            Status::Skip => seq!['·'],
        }
    }

    pub fn symbol(&self) -> (r: &'static str)
        ensures
            r@ == self.symbol_spec(),
    {
        match self {
            Status::Pass => {
                proof {
                    reveal_strlit("✓");
                }
                "✓"
            },
            Status::Fail => {
                proof {
                    reveal_strlit("✗");
                }
                "✗"
            },
            Status::Skip => {
                proof {
                    reveal_strlit("·");
                }
                "·"
            },
        }
    }
}

#[derive(Debug, Clone, Copy, PartialEq, Eq, Structural)]
pub enum EntryKind {
    Result,
    Snapshot,
    Eval,
}

/// One check's verdict as reported. `children` holds nested entries the
/// check surfaces itself (such as a snapshot's wrapped result).
#[derive(Debug)]
pub struct CheckEntry {
    pub name: String,
    pub status: Status,
    pub kind: EntryKind,
    pub exit_code: String,
    pub stdout: String,
    pub stderr: String,
    pub suite: Option<String>,
    pub children: Vec<CheckEntry>,
}

/// A check entry as plain values: its fields, with `child_count` in
/// place of the nested entries.
pub struct EntryView {
    pub name: Seq<char>,
    pub status: Status,
    pub kind: EntryKind,
    pub exit_code: Seq<char>,
    pub stdout: Seq<char>,
    pub stderr: Seq<char>,
    pub suite: Option<Seq<char>>,
    pub child_count: nat,
}

pub open spec fn opt_str_view(s: Option<String>) -> Option<Seq<char>> {
    match s {
        Some(x) => Some(x@),
        None => None,
    }
}

impl CheckEntry {
    pub open spec fn view(&self) -> EntryView {
        EntryView {
            name: self.name@,
            status: self.status,
            kind: self.kind,
            exit_code: self.exit_code@,
            stdout: self.stdout@,
            stderr: self.stderr@,
            suite: opt_str_view(self.suite),
            child_count: self.children@.len(),
        }
    }

    /// The entry as it is stored: its own fields, without nested entries.
    pub open spec fn stored_view(&self) -> EntryView {
        EntryView { child_count: 0, ..self.view() }
    }

    /// Whether the two entries hold the same fields and the same number of
    /// nested entries.
    pub fn same_as(&self, other: &CheckEntry) -> (r: bool)
        ensures
            r == (self@ == other@),
    {
        let same_suite = match (&self.suite, &other.suite) {
            (Some(a), Some(b)) => *a == *b,
            (None, None) => true,
            _ => false,
        };
        self.name == other.name && self.status == other.status && self.kind == other.kind
            && self.exit_code == other.exit_code && self.stdout == other.stdout && self.stderr
            == other.stderr && same_suite && self.children.len() == other.children.len()
    }
}

impl Clone for CheckEntry {
    fn clone(&self) -> (r: Self)
        ensures
            r@ == self@,
        decreases self,
    {
        let mut children: Vec<CheckEntry> = Vec::new();
        let n = self.children.len();
        let mut i: usize = 0;
        while i < n
            invariant
                n == self.children@.len(),
                i <= n,
                children@.len() == i,
            decreases n - i,
        {
            assert(decreases_to!(self => self.children@[i as int]));
            children.push(self.children[i].clone());
            i = i + 1;
        }
        CheckEntry {
            name: self.name.clone(),
            status: self.status,
            kind: self.kind,
            exit_code: self.exit_code.clone(),
            stdout: self.stdout.clone(),
            stderr: self.stderr.clone(),
            suite: match &self.suite {
                Some(s) => Some(s.clone()),
                None => None,
            },
            children,
        }
    }
}

impl DeepView for CheckEntry {
    type V = EntryView;

    open spec fn deep_view(&self) -> EntryView {
        self.view()
    }
}

/// The key an entry is stored under: `suite:name` inside a suite, the
/// bare name otherwise.
pub open spec fn key_spec(suite: Option<Seq<char>>, name: Seq<char>) -> Seq<char> {
    match suite {
        Some(s) => s + seq![':'] + name,
        None => name,
    }
}

pub fn entry_key(suite: Option<&str>, name: &str) -> (r: String)
    ensures
        r@ == key_spec(
            match suite {
                Some(s) => Some(s@),
                None => None,
            },
            name@,
        ),
{
    match suite {
        Some(s) => {
            let mut k = String::from_str(s);
            proof {
                reveal_strlit(":");
            }
            k.append(":");
            k.append(name);
            k
        },
        None => String::from_str(name),
    }
}

/// Copies a list of strings.
pub fn clone_strings(v: &Vec<String>) -> (r: Vec<String>)
    ensures
        r.deep_view() == v.deep_view(),
{
    let mut r: Vec<String> = Vec::new();
    let n = v.len();
    let mut i: usize = 0;
    while i < n
        invariant
            n == v@.len(),
            i <= n,
            r@.len() == i,
            forall|j: int| 0 <= j < i ==> #[trigger] r@[j]@ == v@[j]@,
        decreases n - i,
    {
        r.push(v[i].clone());
        i = i + 1;
    }
    assert(r.deep_view() =~= v.deep_view());
    r
}

/// A top-level row of the report: a suite with the keys of its checks, or
/// a check outside any suite.
#[derive(Debug, Clone, PartialEq, Eq)]
pub enum OrderItem {
    Suite { name: String, checks: Vec<String> },
    Check(String),
}

pub enum OrderItemView {
    Suite { name: Seq<char>, checks: Seq<Seq<char>> },
    Check(Seq<char>),
}

impl OrderItem {
    pub open spec fn view(&self) -> OrderItemView {
        match self {
            OrderItem::Suite { name, checks } => OrderItemView::Suite {
                name: name@,
                checks: checks.deep_view(),
            },
            OrderItem::Check(k) => OrderItemView::Check(k@),
        }
    }
}

/// A row of the list as shown: a suite header, or a check indented by
/// `depth` (0 for a top-level check, one more per level of nesting).
#[derive(Debug, Clone, PartialEq, Eq)]
pub enum VisibleItem {
    Suite(String),
    Check { key: String, depth: usize },
}

pub enum VisibleView {
    Suite(Seq<char>),
    Check { key: Seq<char>, depth: nat },
}

impl VisibleItem {
    pub open spec fn view(&self) -> VisibleView {
        match self {
            VisibleItem::Suite(n) => VisibleView::Suite(n@),
            VisibleItem::Check { key, depth } => VisibleView::Check { key: key@, depth: *depth as nat },
        }
    }
}

/// The report as plain values.
pub struct AppModel {
    pub order: Seq<OrderItemView>,
    pub entries: Map<Seq<char>, EntryView>,
    pub child_keys: Map<Seq<char>, Seq<Seq<char>>>,
    pub folded_suites: Set<Seq<char>>,
    pub folded_checks: Set<Seq<char>>,
    pub generation: u64,
    pub entry_generations: Map<Seq<char>, u64>,
}

pub open spec fn is_suite_named(it: OrderItemView, s: Seq<char>) -> bool {
    it matches OrderItemView::Suite { name, .. } && name == s
}

/// `i` is the first position of `order` holding the suite named `s`.
pub open spec fn is_first_suite(order: Seq<OrderItemView>, s: Seq<char>, i: int) -> bool {
    &&& 0 <= i < order.len()
    &&& is_suite_named(order[i], s)
    &&& forall|j: int| 0 <= j < i ==> !is_suite_named(#[trigger] order[j], s)
}

pub open spec fn suite_checks(it: OrderItemView) -> Seq<Seq<char>> {
    match it {
        OrderItemView::Suite { checks, .. } => checks,
        OrderItemView::Check(_) => Seq::empty(),
    }
}

/// Where a newly seen key goes: a flat check is appended; a suite member
/// joins the first suite of that name, or a new suite appended for it.
pub open spec fn place_key(order: Seq<OrderItemView>, key: Seq<char>, suite: Option<Seq<char>>) -> Seq<
    OrderItemView,
> {
    match suite {
        None => order.push(OrderItemView::Check(key)),
        Some(s) => if exists|i: int| is_first_suite(order, s, i) {
            let i = choose|i: int| is_first_suite(order, s, i);
            order.update(i, OrderItemView::Suite { name: s, checks: suite_checks(order[i]).push(key) })
        } else {
            order.push(OrderItemView::Suite { name: s, checks: seq![key] })
        },
    }
}

/// The keys of `e`'s direct children when `e` is stored under `parent`.
pub open spec fn child_key_list(parent: Seq<char>, e: CheckEntry) -> Seq<Seq<char>> {
    Seq::new(e.children@.len(), |i: int| key_spec(Some(parent), e.children@[i].name@))
}

/// Stores `e` under `key` in the current generation, then its children
/// (each under `key:name`, recursively), then links `key` to its
/// children's keys. A check that gains children for the first time starts
/// folded; one with none loses its link.
pub open spec fn insert_node(m: AppModel, key: Seq<char>, e: CheckEntry) -> AppModel
    decreases e, e.children@.len() + 1,
{
    let is_new = !m.entries.contains_key(key);
    let m1 = AppModel {
        entry_generations: m.entry_generations.insert(key, m.generation),
        entries: m.entries.insert(key, e.stored_view()),
        ..m
    };
    let m2 = insert_children(m1, key, e, 0);
    if e.children@.len() == 0 {
        AppModel { child_keys: m2.child_keys.remove(key), ..m2 }
    } else {
        AppModel {
            folded_checks: if is_new {
                m2.folded_checks.insert(key)
            } else {
                m2.folded_checks
            },
            child_keys: m2.child_keys.insert(key, child_key_list(key, e)),
            ..m2
        }
    }
}

/// Stores the children of `e` from position `i` on, in order.
pub open spec fn insert_children(m: AppModel, parent: Seq<char>, e: CheckEntry, i: nat) -> AppModel
    decreases e, e.children@.len() - i,
{
    if i >= e.children@.len() {
        m
    } else {
        let c = e.children@[i as int];
        proof {
            assert(decreases_to!(e => e.children@[i as int]));
        }
        insert_children(insert_node(m, key_spec(Some(parent), c.name@), c), parent, e, i + 1)
    }
}

/// What `upsert` makes of the report: a key not seen before is placed in
/// the order, then the entry and its children are stored.
pub open spec fn upsert_model(m: AppModel, e: CheckEntry) -> AppModel {
    let key = key_spec(opt_str_view(e.suite), e.name@);
    let m1 = if m.entries.contains_key(key) {
        m
    } else {
        AppModel { order: place_key(m.order, key, opt_str_view(e.suite)), ..m }
    };
    insert_node(m1, key, e)
}

/// The keys upserted in the current generation.
pub open spec fn live_keys(m: AppModel) -> Set<Seq<char>> {
    m.entry_generations.dom().filter(|k: Seq<char>| m.entry_generations[k] >= m.generation)
}

/// A row with its suite's checks narrowed to `live`.
pub open spec fn prune_item(it: OrderItemView, live: Set<Seq<char>>) -> OrderItemView {
    match it {
        OrderItemView::Suite { name, checks } => OrderItemView::Suite {
            name,
            checks: checks.filter(in_set(live)),
        },
        OrderItemView::Check(k) => OrderItemView::Check(k),
    }
}

/// A flat check stays while live; a suite while it has a check left.
pub open spec fn keeps_item(it: OrderItemView, live: Set<Seq<char>>) -> bool {
    match it {
        OrderItemView::Check(k) => live.contains(k),
        OrderItemView::Suite { checks, .. } => checks.len() > 0,
    }
}

pub open spec fn pruner(live: Set<Seq<char>>) -> spec_fn(OrderItemView) -> OrderItemView {
    |it: OrderItemView| prune_item(it, live)
}

pub open spec fn keeper(live: Set<Seq<char>>) -> spec_fn(OrderItemView) -> bool {
    |it: OrderItemView| keeps_item(it, live)
}

pub open spec fn prune_order(order: Seq<OrderItemView>, live: Set<Seq<char>>) -> Seq<OrderItemView> {
    order.map_values(pruner(live)).filter(keeper(live))
}

/// The names of the suites in `order`.
pub open spec fn suite_names(order: Seq<OrderItemView>) -> Set<Seq<char>> {
    Set::new(|n: Seq<char>| exists|i: int| 0 <= i < order.len() && is_suite_named(#[trigger] order[i], n))
}

/// What `prune` makes of the report: only the keys of the current
/// generation stay, in the order, the entries, the child links and the
/// fold state; suites left empty go.
pub open spec fn prune_model(m: AppModel) -> AppModel {
    let live = live_keys(m);
    let order = prune_order(m.order, live);
    let child_keys = m.child_keys.restrict(live).map_values(
        |l: Seq<Seq<char>>| l.filter(in_set(live)),
    );
    AppModel {
        order,
        entries: m.entries.restrict(live),
        child_keys,
        folded_suites: m.folded_suites.intersect(suite_names(order)),
        folded_checks: m.folded_checks.intersect(child_keys.dom()),
        generation: m.generation,
        entry_generations: m.entry_generations.restrict(live),
    }
}

proof fn lemma_prune_order_step(s: Seq<OrderItemView>, live: Set<Seq<char>>, i: int)
    requires
        0 <= i < s.len(),
    ensures
        prune_order(s.take(i + 1), live) == (if keeps_item(prune_item(s[i], live), live) {
            prune_order(s.take(i), live).push(prune_item(s[i], live))
        } else {
            prune_order(s.take(i), live)
        }),
{
    let t = s.map_values(pruner(live));
    assert(s.take(i + 1).map_values(pruner(live)) =~= t.take(i + 1));
    assert(s.take(i).map_values(pruner(live)) =~= t.take(i));
    lemma_filter_take_step(t, keeper(live), i);
}

/// The names of the suites in `order`, as a set.
fn suite_name_set(order: &Vec<OrderItem>) -> (r: KeySet)
    ensures
        r@ == suite_names(order@.map_values(|it: OrderItem| it@)),
{
    let ghost ov = order@.map_values(|it: OrderItem| it@);
    let mut r = KeySet::new();
    let n = order.len();
    let mut i: usize = 0;
    while i < n
        invariant
            n == order@.len(),
            ov == order@.map_values(|it: OrderItem| it@),
            i <= n,
            r@ == suite_names(ov.take(i as int)),
        decreases n - i,
    {
        let ghost before = r@;
        match &order[i] {
            OrderItem::Suite { name, .. } => {
                r.insert(name.clone());
            },
            OrderItem::Check(_) => {},
        }
        proof {
            let t1 = ov.take(i + 1);
            let t0 = ov.take(i as int);
            assert forall|q: Seq<char>| r@.contains(q) <==> suite_names(t1).contains(q) by {
                if suite_names(t1).contains(q) {
                    let j = choose|j: int| 0 <= j < t1.len() && is_suite_named(#[trigger] t1[j], q);
                    if j < i {
                        assert(t0[j] == t1[j]);
                        assert(suite_names(t0).contains(q));
                    }
                }
                if suite_names(t0).contains(q) {
                    let j = choose|j: int| 0 <= j < t0.len() && is_suite_named(#[trigger] t0[j], q);
                    assert(t1[j] == t0[j]);
                }
                if r@.contains(q) && !before.contains(q) {
                    assert(t1[i as int] == ov[i as int]);
                    assert(is_suite_named(t1[i as int], q));
                }
            }
            assert(r@ =~= suite_names(t1));
        }
        i = i + 1;
    }
    assert(ov.take(n as int) =~= ov);
    r
}

/// How many nested expansions the child links can need: a chain of
/// descendants never repeats a key, so it expands at most every linked
/// key once.
pub open spec fn link_fuel(ck: Map<Seq<char>, Seq<Seq<char>>>) -> nat {
    if ck.len() < usize::MAX - 3 {
        ck.len()
    } else {
        (usize::MAX - 3) as nat
    }
}

/// The descendants of `key`, depth first: each child followed by its own
/// descendants, expanding at most `fuel` levels.
pub open spec fn desc_keys(ck: Map<Seq<char>, Seq<Seq<char>>>, key: Seq<char>, fuel: nat) -> Seq<Seq<char>>
    decreases fuel, 0nat, 0nat,
{
    if fuel == 0 || !ck.contains_key(key) {
        Seq::empty()
    } else {
        desc_list(ck, ck[key], (fuel - 1) as nat)
    }
}

/// Each key of `list` followed by its descendants.
pub open spec fn desc_list(ck: Map<Seq<char>, Seq<Seq<char>>>, list: Seq<Seq<char>>, fuel: nat) -> Seq<Seq<char>>
    decreases fuel, 1nat, list.len(),
{
    if list.len() == 0 {
        Seq::empty()
    } else {
        desc_list(ck, list.drop_last(), fuel) + seq![list.last()] + desc_keys(ck, list.last(), fuel)
    }
}

/// The keys a row of the order stands for, with all their descendants.
pub open spec fn item_keys(m: AppModel, it: OrderItemView) -> Seq<Seq<char>> {
    match it {
        OrderItemView::Check(k) => desc_list(m.child_keys, seq![k], link_fuel(m.child_keys)),
        OrderItemView::Suite { checks, .. } => desc_list(m.child_keys, checks, link_fuel(m.child_keys)),
    }
}

pub open spec fn order_keys(m: AppModel, order: Seq<OrderItemView>) -> Seq<Seq<char>>
    decreases order.len(),
{
    if order.len() == 0 {
        Seq::empty()
    } else {
        order_keys(m, order.drop_last()) + item_keys(m, order.last())
    }
}

/// Every key of the report in listing order: each row's keys, each check
/// followed by its descendants.
pub open spec fn all_keys_spec(m: AppModel) -> Seq<Seq<char>> {
    order_keys(m, m.order)
}

/// The rows shown for the descendants of `key` at `depth`: nothing when
/// `key` is folded, else each child and its own shown descendants.
pub open spec fn vis_children(m: AppModel, key: Seq<char>, depth: nat, fuel: nat) -> Seq<VisibleView>
    decreases fuel, 0nat, 0nat,
{
    if fuel == 0 || m.folded_checks.contains(key) || !m.child_keys.contains_key(key) {
        Seq::empty()
    } else {
        vis_list(m, m.child_keys[key], depth, (fuel - 1) as nat)
    }
}

pub open spec fn vis_list(m: AppModel, list: Seq<Seq<char>>, depth: nat, fuel: nat) -> Seq<VisibleView>
    decreases fuel, 1nat, list.len(),
{
    if list.len() == 0 {
        Seq::empty()
    } else {
        vis_list(m, list.drop_last(), depth, fuel) + seq![VisibleView::Check { key: list.last(), depth }]
            + vis_children(m, list.last(), depth + 1, fuel)
    }
}

/// The rows a row of the order shows: a flat check at depth 0 with its
/// unfolded descendants; a suite header, then, unless the suite is
/// folded, its checks at depth 1 with theirs.
pub open spec fn item_rows(m: AppModel, it: OrderItemView) -> Seq<VisibleView> {
    match it {
        OrderItemView::Check(k) => vis_list(m, seq![k], 0, link_fuel(m.child_keys)),
        OrderItemView::Suite { name, checks } => seq![VisibleView::Suite(name)] + if m.folded_suites.contains(name) {
            Seq::empty()
        } else {
            vis_list(m, checks, 1, link_fuel(m.child_keys))
        },
    }
}

pub open spec fn order_rows(m: AppModel, order: Seq<OrderItemView>) -> Seq<VisibleView>
    decreases order.len(),
{
    if order.len() == 0 {
        Seq::empty()
    } else {
        order_rows(m, order.drop_last()) + item_rows(m, order.last())
    }
}

pub open spec fn visible_spec(m: AppModel) -> Seq<VisibleView> {
    order_rows(m, m.order)
}

/// How many of `keys` hold an entry with status `st`.
pub open spec fn count_status(m: AppModel, keys: Seq<Seq<char>>, st: Status) -> nat
    decreases keys.len(),
{
    if keys.len() == 0 {
        0
    } else {
        count_status(m, keys.drop_last(), st) + if m.entries.contains_key(keys.last())
            && m.entries[keys.last()].status == st {
            1nat
        } else {
            0nat
        }
    }
}

/// The checks of the first suite named `name`, or none.
pub open spec fn suite_keys(m: AppModel, name: Seq<char>) -> Seq<Seq<char>> {
    if exists|i: int| is_first_suite(m.order, name, i) {
        suite_checks(m.order[choose|i: int| is_first_suite(m.order, name, i)])
    } else {
        Seq::empty()
    }
}

pub open spec fn tally(m: AppModel, keys: Seq<Seq<char>>) -> (nat, nat, nat) {
    (count_status(m, keys, Status::Pass), count_status(m, keys, Status::Fail), count_status(m, keys, Status::Skip))
}

/// `k` has at least one child linked.
pub open spec fn has_children(m: AppModel, k: Seq<char>) -> bool {
    m.child_keys.contains_key(k) && m.child_keys[k].len() > 0
}

pub open spec fn toggled(s: Set<Seq<char>>, k: Seq<char>) -> Set<Seq<char>> {
    if s.contains(k) {
        s.remove(k)
    } else {
        s.insert(k)
    }
}

/// The keys a row of the order lists: a flat check's own key, or a
/// suite's checks.
pub open spec fn row_keys(it: OrderItemView) -> Seq<Seq<char>> {
    match it {
        OrderItemView::Check(k) => seq![k],
        OrderItemView::Suite { checks, .. } => checks,
    }
}

/// The report holds together: every key the order lists has an entry, no
/// suite in it is empty, and every child link runs from a key with an
/// entry to keys with entries.
pub open spec fn report_consistent(m: AppModel) -> bool {
    &&& forall|i: int, j: int|
        0 <= i < m.order.len() && 0 <= j < row_keys(m.order[i]).len() ==> m.entries.contains_key(
            #[trigger] row_keys(m.order[i])[j],
        )
    &&& forall|i: int| 0 <= i < m.order.len() && (#[trigger] m.order[i]) is Suite ==> suite_checks(m.order[i]).len() > 0
    &&& forall|k: Seq<char>| #[trigger] m.child_keys.contains_key(k) ==> m.entries.contains_key(k)
    &&& forall|k: Seq<char>, j: int|
        m.child_keys.contains_key(k) && 0 <= j < m.child_keys[k].len() ==> m.entries.contains_key(
            #[trigger] m.child_keys[k][j],
        )
}

/// The fold marks name what can fold: a folded check has child links, a
/// folded suite is in the order.
pub open spec fn folds_consistent(m: AppModel) -> bool {
    &&& m.folded_checks.subset_of(m.child_keys.dom())
    &&& m.folded_suites.subset_of(suite_names(m.order))
}

/// The empty report.
pub open spec fn empty_app_model() -> AppModel {
    AppModel {
        order: Seq::empty(),
        entries: Map::empty(),
        child_keys: Map::empty(),
        folded_suites: Set::empty(),
        folded_checks: Set::empty(),
        generation: 0,
        entry_generations: Map::empty(),
    }
}

/// The report: entries by key, their listing order, nested children and
/// fold state.
pub struct App {
    pub order: Vec<OrderItem>,
    pub entries: Table<CheckEntry>,
    /// Direct children of a check, by the check's own key.
    pub child_keys: Table<Vec<String>>,
    pub folded_suites: KeySet,
    /// Checks whose children are hidden; a check with children starts
    /// folded, a suite starts unfolded.
    pub folded_checks: KeySet,
    /// The generation entries upserted now are stamped with.
    pub generation: u64,
    /// The generation each key was last upserted in; `prune` keeps the
    /// keys of the current one.
    pub entry_generations: Table<u64>,
}

impl App {
    /// The report as plain values.
    pub open spec fn view(&self) -> AppModel {
        AppModel {
            order: self.order@.map_values(|it: OrderItem| it@),
            entries: self.entries@,
            child_keys: self.child_keys@,
            folded_suites: self.folded_suites@,
            folded_checks: self.folded_checks@,
            generation: self.generation,
            entry_generations: self.entry_generations@,
        }
    }

    pub fn new() -> (r: Self)
        ensures
            r@.order == Seq::<OrderItemView>::empty(),
            r@.entries == Map::<Seq<char>, EntryView>::empty(),
            r@.child_keys == Map::<Seq<char>, Seq<Seq<char>>>::empty(),
            r@.folded_suites == Set::<Seq<char>>::empty(),
            r@.folded_checks == Set::<Seq<char>>::empty(),
            r@.generation == 0,
            r@.entry_generations == Map::<Seq<char>, u64>::empty(),
            r@ == empty_app_model(),
            report_consistent(r@),
            folds_consistent(r@),
    {
        let r = App {
            order: Vec::new(),
            entries: Table::new(),
            child_keys: Table::new(),
            folded_suites: KeySet::new(),
            folded_checks: KeySet::new(),
            generation: 0,
            entry_generations: Table::new(),
        };
        assert(r@.order =~= Seq::<OrderItemView>::empty());
        r
    }

    /// The entry stored under `key`, if any.
    pub fn entry(&self, key: &str) -> (r: Option<&CheckEntry>)
        ensures
            r is Some == self@.entries.contains_key(key@),
            r matches Some(e) ==> e@ == self@.entries[key@],
    {
        self.entries.get(key)
    }

    pub fn suite_folded(&self, name: &str) -> (r: bool)
        ensures
            r == self@.folded_suites.contains(name@),
    {
        self.folded_suites.contains(name)
    }

    pub fn check_folded(&self, key: &str) -> (r: bool)
        ensures
            r == self@.folded_checks.contains(key@),
    {
        self.folded_checks.contains(key)
    }

    /// Whether the check `key` has at least one child linked.
    pub fn has_children(&self, key: &str) -> (r: bool)
        ensures
            r == has_children(self@, key@),
    {
        match self.child_keys.get(key) {
            Some(l) => l.len() > 0,
            None => false,
        }
    }

    /// The number of rows of the order.
    pub fn order_len(&self) -> (r: usize)
        ensures
            r == self@.order.len(),
    {
        self.order.len()
    }

    /// Row `i` of the order.
    pub fn order_item(&self, i: usize) -> (r: &OrderItem)
        requires
            i < self@.order.len(),
        ensures
            r@ == self@.order[i as int],
    {
        &self.order[i]
    }

    /// The generation that entries upserted now belong to.
    pub fn generation(&self) -> (r: u64)
        ensures
            r == self@.generation,
    {
        self.generation
    }

    /// Starts a new generation: what is not upserted again before the next
    /// `prune` is dropped by it.
    pub fn bump_generation(&mut self)
        requires
            old(self)@.generation < u64::MAX,
        ensures
            final(self)@ == (AppModel { generation: (old(self)@.generation + 1) as u64, ..old(self)@ }),
            report_consistent(old(self)@) ==> report_consistent(final(self)@),
            folds_consistent(old(self)@) ==> folds_consistent(final(self)@),
    {
        self.generation = self.generation + 1;
    }

    fn find_suite(&self, name: &str) -> (r: Option<usize>)
        ensures
            match r {
                Some(i) => is_first_suite(self@.order, name@, i as int),
                None => forall|j: int| 0 <= j < self@.order.len() ==> !is_suite_named(#[trigger] self@.order[j], name@),
            },
    {
        let n = self.order.len();
        let mut i: usize = 0;
        while i < n
            invariant
                n == self.order@.len(),
                i <= n,
                forall|j: int| 0 <= j < i ==> !is_suite_named(#[trigger] self@.order[j], name@),
            decreases n - i,
        {
            match &self.order[i] {
                OrderItem::Suite { name: sname, .. } => {
                    if crate::table::str_equal(sname.as_str(), name) {
                        return Some(i);
                    }
                },
                OrderItem::Check(_) => {},
            }
            i = i + 1;
        }
        None
    }

    fn place_key(&mut self, key: &String, suite: &Option<String>)
        ensures
            final(self)@ == (AppModel { order: place_key(old(self)@.order, key@, opt_str_view(*suite)), ..old(self)@ }),
    {
        let ghost old_order = self@.order;
        match suite {
            None => {
                self.order.push(OrderItem::Check(key.clone()));
                assert(self@.order =~= old_order.push(OrderItemView::Check(key@)));
            },
            Some(s) => {
                match self.find_suite(s.as_str()) {
                    Some(i) => {
                        let ghost s_v = s@;
                        proof {
                            assert forall|j: int| is_first_suite(old_order, s_v, j) implies j == i by {
                                if j < i {
                                    assert(!is_suite_named(old_order[j], s_v));
                                } else if j > i {
                                    assert(!is_suite_named(old_order[i as int], s_v));
                                }
                            }
                        }
                        let new_item = match &self.order[i] {
                            OrderItem::Suite { name, checks } => {
                                let mut c = clone_strings(checks);
                                c.push(key.clone());
                                assert(c.deep_view() =~= checks.deep_view().push(key@));
                                OrderItem::Suite { name: name.clone(), checks: c }
                            },
                            OrderItem::Check(k) => OrderItem::Check(k.clone()),
                        };
                        self.order.set(i, new_item);
                        assert(self@.order =~= old_order.update(
                            i as int,
                            OrderItemView::Suite { name: s_v, checks: suite_checks(old_order[i as int]).push(key@) },
                        ));
                    },
                    None => {
                        let mut c: Vec<String> = Vec::new();
                        c.push(key.clone());
                        assert(c.deep_view() =~= seq![key@]);
                        self.order.push(OrderItem::Suite { name: s.clone(), checks: c });
                        assert(self@.order =~= old_order.push(OrderItemView::Suite { name: s@, checks: seq![key@] }));
                    },
                }
            },
        }
    }

    fn insert_with_children(&mut self, key: String, entry: CheckEntry)
        ensures
            final(self)@ == insert_node(old(self)@, key@, entry),
        decreases entry,
    {
        let ghost e0 = entry;
        let ghost m0 = self@;
        let mut stored = entry;
        let mut children: Vec<CheckEntry> = Vec::new();
        std::mem::swap(&mut children, &mut stored.children);
        let is_new = !self.entries.contains_key(key.as_str());
        self.entry_generations.insert(key.clone(), self.generation);
        self.entries.insert(key.clone(), stored);
        let ghost m1 = self@;
        assert(m1 == AppModel {
            entry_generations: m0.entry_generations.insert(key@, m0.generation),
            entries: m0.entries.insert(key@, e0.stored_view()),
            ..m0
        });
        let mut child_keys: Vec<String> = Vec::new();
        let n = children.len();
        let mut i: usize = 0;
        while i < n
            invariant
                e0 == entry,
                n == e0.children@.len(),
                i <= n,
                children@ == e0.children@.subrange(i as int, n as int),
                child_keys.deep_view() == child_key_list(key@, e0).subrange(0, i as int),
                insert_children(self@, key@, e0, i as nat) == insert_children(m1, key@, e0, 0),
            decreases n - i,
        {
            let child = children.remove(0);
            assert(child == e0.children@[i as int]);
            let ck = entry_key(Some(key.as_str()), child.name.as_str());
            let ghost before = child_keys.deep_view();
            child_keys.push(ck.clone());
            proof {
                let after = child_keys.deep_view();
                let want = child_key_list(key@, e0).subrange(0, i + 1);
                assert(before.len() == i);
                assert(child_keys@.len() == i + 1);
                assert(child_key_list(key@, e0).len() == n);
                assert(want.len() == i + 1);
                assert(after.len() == want.len());
                assert forall|j: int| 0 <= j < after.len() implies after[j] == want[j] by {
                    if j < i {
                        assert(after[j] == before[j]);
                    }
                }
                assert(after =~= want);
            }
            assert(decreases_to!(e0 => e0.children@[i as int]));
            self.insert_with_children(ck, child);
            assert(children@ =~= e0.children@.subrange(i + 1, n as int));
            i = i + 1;
        }
        assert(child_keys.deep_view() =~= child_key_list(key@, e0));
        if child_keys.len() == 0 {
            self.child_keys.remove(key.as_str());
        } else {
            if is_new {
                self.folded_checks.insert(key.clone());
            }
            self.child_keys.insert(key, child_keys);
        }
    }

    /// Adds `entry` or replaces what its key held, together with its
    /// children, all in the current generation.
    pub fn upsert(&mut self, entry: CheckEntry)
        ensures
            final(self)@ == upsert_model(old(self)@, entry),
            report_consistent(old(self)@) ==> report_consistent(final(self)@),
            folds_consistent(old(self)@) && (forall|k: Seq<char>|
                #[trigger] final(self)@.folded_checks.contains(k) ==> !crate::upsert_laws::drops_link(entry, k))
                ==> folds_consistent(final(self)@),
    {
        proof {
            if report_consistent(self@) {
                crate::consistency::lemma_upsert_consistent(self@, entry);
            }
            if folds_consistent(self@) && (forall|k: Seq<char>|
                #[trigger] upsert_model(self@, entry).folded_checks.contains(k) ==> !crate::upsert_laws::drops_link(
                    entry,
                    k,
                )) {
                crate::consistency::lemma_upsert_folds(self@, entry);
            }
        }
        let key = match &entry.suite {
            Some(s) => entry_key(Some(s.as_str()), entry.name.as_str()),
            None => entry_key(None, entry.name.as_str()),
        };
        if !self.entries.contains_key(key.as_str()) {
            self.place_key(&key, &entry.suite);
        }
        self.insert_with_children(key, entry);
    }

    fn fuel(&self) -> (r: usize)
        ensures
            r == link_fuel(self@.child_keys),
    {
        let n = self.child_keys.len();
        if n < usize::MAX - 3 {
            n
        } else {
            usize::MAX - 3
        }
    }

    fn push_desc_list(&self, list: &Vec<String>, fuel: usize, out: &mut Vec<String>)
        ensures
            final(out).deep_view() == old(out).deep_view() + desc_list(self@.child_keys, list.deep_view(), fuel as nat),
        decreases fuel, 1nat, list@.len(),
    {
        let ghost ck = self@.child_keys;
        let ghost lv = list.deep_view();
        let ghost start = out.deep_view();
        let n = list.len();
        let mut i: usize = 0;
        while i < n
            invariant
                n == list@.len(),
                lv == list.deep_view(),
                ck == self@.child_keys,
                i <= n,
                out.deep_view() == start + desc_list(ck, lv.take(i as int), fuel as nat),
            decreases n - i,
        {
            let ghost before = out.deep_view();
            out.push(list[i].clone());
            assert(out.deep_view() =~= before + seq![lv[i as int]]);
            self.push_desc_keys(list[i].as_str(), fuel, out);
            proof {
                let t = lv.take(i + 1);
                assert(t.drop_last() =~= lv.take(i as int));
                assert(t.last() == lv[i as int]);
                assert(out.deep_view() =~= start + desc_list(ck, t, fuel as nat));
            }
            i = i + 1;
        }
        assert(lv.take(n as int) =~= lv);
    }

    fn push_desc_keys(&self, key: &str, fuel: usize, out: &mut Vec<String>)
        ensures
            final(out).deep_view() == old(out).deep_view() + desc_keys(self@.child_keys, key@, fuel as nat),
        decreases fuel, 0nat, 0nat,
    {
        if fuel == 0 {
            assert(out.deep_view() =~= out.deep_view() + Seq::<Seq<char>>::empty());
            return;
        }
        match self.child_keys.get(key) {
            None => {
                assert(out.deep_view() =~= out.deep_view() + Seq::<Seq<char>>::empty());
            },
            Some(children) => {
                self.push_desc_list(children, fuel - 1, out);
            },
        }
    }

    /// Every key of the report in listing order, each check followed by
    /// its descendants.
    pub fn all_keys(&self) -> (r: Vec<String>)
        ensures
            r.deep_view() == all_keys_spec(self@),
    {
        let ghost m = self@;
        let fuel = self.fuel();
        let mut out: Vec<String> = Vec::new();
        let n = self.order.len();
        let mut i: usize = 0;
        while i < n
            invariant
                n == self.order@.len(),
                m == self@,
                fuel == link_fuel(m.child_keys),
                i <= n,
                out.deep_view() == order_keys(m, m.order.take(i as int)),
            decreases n - i,
        {
            let ghost before = out.deep_view();
            proof {
                assert(m.order[i as int] == self.order@[i as int]@);
                let t = m.order.take(i + 1);
                assert(t.drop_last() =~= m.order.take(i as int));
                assert(t.last() == m.order[i as int]);
            }
            match &self.order[i] {
                OrderItem::Check(k) => {
                    out.push(k.clone());
                    assert(out.deep_view() =~= before + seq![k@]);
                    self.push_desc_keys(k.as_str(), fuel, &mut out);
                    proof {
                        let l = seq![k@];
                        assert(l.drop_last() =~= Seq::<Seq<char>>::empty());
                        assert(desc_list(m.child_keys, l.drop_last(), fuel as nat) =~= Seq::<Seq<char>>::empty());
                        assert(desc_list(m.child_keys, l, fuel as nat) =~= seq![k@] + desc_keys(m.child_keys, k@, fuel as nat));
                        assert(out.deep_view() =~= before + item_keys(m, m.order[i as int]));
                    }
                },
                OrderItem::Suite { checks, .. } => {
                    self.push_desc_list(checks, fuel, &mut out);
                },
            }
            i = i + 1;
        }
        assert(m.order.take(n as int) =~= m.order);
        out
    }

    fn push_vis_list(&self, list: &Vec<String>, depth: usize, fuel: usize, out: &mut Vec<VisibleItem>)
        requires
            depth + fuel < usize::MAX,
        ensures
            final(out)@.map_values(|v: VisibleItem| v@) == old(out)@.map_values(|v: VisibleItem| v@) + vis_list(
                self@,
                list.deep_view(),
                depth as nat,
                fuel as nat,
            ),
        decreases fuel, 1nat, list@.len(),
    {
        let ghost m = self@;
        let ghost lv = list.deep_view();
        let ghost start = out@.map_values(|v: VisibleItem| v@);
        let n = list.len();
        let mut i: usize = 0;
        while i < n
            invariant
                n == list@.len(),
                lv == list.deep_view(),
                m == self@,
                depth + fuel < usize::MAX,
                i <= n,
                out@.map_values(|v: VisibleItem| v@) == start + vis_list(m, lv.take(i as int), depth as nat, fuel as nat),
            decreases n - i,
        {
            let ghost before = out@.map_values(|v: VisibleItem| v@);
            out.push(VisibleItem::Check { key: list[i].clone(), depth });
            assert(out@.map_values(|v: VisibleItem| v@) =~= before + seq![VisibleView::Check { key: lv[i as int], depth: depth as nat }]);
            self.push_vis_children(list[i].as_str(), depth + 1, fuel, out);
            proof {
                let t = lv.take(i + 1);
                assert(t.drop_last() =~= lv.take(i as int));
                assert(t.last() == lv[i as int]);
                assert(out@.map_values(|v: VisibleItem| v@) =~= start + vis_list(m, t, depth as nat, fuel as nat));
            }
            i = i + 1;
        }
        assert(lv.take(n as int) =~= lv);
    }

    fn push_vis_children(&self, key: &str, depth: usize, fuel: usize, out: &mut Vec<VisibleItem>)
        requires
            depth + fuel <= usize::MAX,
        ensures
            final(out)@.map_values(|v: VisibleItem| v@) == old(out)@.map_values(|v: VisibleItem| v@) + vis_children(
                self@,
                key@,
                depth as nat,
                fuel as nat,
            ),
        decreases fuel, 0nat, 0nat,
    {
        if fuel == 0 || self.folded_checks.contains(key) {
            assert(out@.map_values(|v: VisibleItem| v@) =~= out@.map_values(|v: VisibleItem| v@) + Seq::<VisibleView>::empty());
            return;
        }
        match self.child_keys.get(key) {
            None => {
                assert(out@.map_values(|v: VisibleItem| v@) =~= out@.map_values(|v: VisibleItem| v@) + Seq::<VisibleView>::empty());
            },
            Some(children) => {
                self.push_vis_list(children, depth, fuel - 1, out);
            },
        }
    }

    /// The rows of the list as shown, respecting folded suites and checks.
    pub fn visible_items(&self) -> (r: Vec<VisibleItem>)
        ensures
            r@.map_values(|v: VisibleItem| v@) == visible_spec(self@),
    {
        let ghost m = self@;
        let fuel = self.fuel();
        let mut out: Vec<VisibleItem> = Vec::new();
        let n = self.order.len();
        let mut i: usize = 0;
        while i < n
            invariant
                n == self.order@.len(),
                m == self@,
                fuel == link_fuel(m.child_keys),
                fuel <= usize::MAX - 3,
                i <= n,
                out@.map_values(|v: VisibleItem| v@) == order_rows(m, m.order.take(i as int)),
            decreases n - i,
        {
            let ghost before = out@.map_values(|v: VisibleItem| v@);
            proof {
                assert(m.order[i as int] == self.order@[i as int]@);
                let t = m.order.take(i + 1);
                assert(t.drop_last() =~= m.order.take(i as int));
                assert(t.last() == m.order[i as int]);
            }
            match &self.order[i] {
                OrderItem::Check(k) => {
                    out.push(VisibleItem::Check { key: k.clone(), depth: 0 });
                    assert(out@.map_values(|v: VisibleItem| v@) =~= before + seq![VisibleView::Check { key: k@, depth: 0 }]);
                    self.push_vis_children(k.as_str(), 1, fuel, &mut out);
                    proof {
                        let l = seq![k@];
                        assert(l.drop_last() =~= Seq::<Seq<char>>::empty());
                        assert(vis_list(m, l.drop_last(), 0, fuel as nat) =~= Seq::<VisibleView>::empty());
                        assert(vis_list(m, l, 0, fuel as nat) =~= seq![VisibleView::Check { key: k@, depth: 0 }] + vis_children(m, k@, 1, fuel as nat));
                        assert(out@.map_values(|v: VisibleItem| v@) =~= before + item_rows(m, m.order[i as int]));
                    }
                },
                OrderItem::Suite { name, checks } => {
                    out.push(VisibleItem::Suite(name.clone()));
                    let ghost mid = out@.map_values(|v: VisibleItem| v@);
                    assert(mid =~= before + seq![VisibleView::Suite(name@)]);
                    if !self.folded_suites.contains(name.as_str()) {
                        self.push_vis_list(checks, 1, fuel, &mut out);
                        assert(out@.map_values(|v: VisibleItem| v@) =~= before + item_rows(m, m.order[i as int]));
                    } else {
                        assert(out@.map_values(|v: VisibleItem| v@) =~= before + item_rows(m, m.order[i as int]));
                    }
                },
            }
            i = i + 1;
        }
        assert(m.order.take(n as int) =~= m.order);
        out
    }

    fn count_keys(&self, keys: &Vec<String>) -> (r: (usize, usize, usize))
        ensures
            (r.0 as nat, r.1 as nat, r.2 as nat) == tally(self@, keys.deep_view()),
    {
        let ghost m = self@;
        let ghost kv = keys.deep_view();
        let mut pass: usize = 0;
        let mut fail: usize = 0;
        let mut skip: usize = 0;
        let n = keys.len();
        let mut i: usize = 0;
        while i < n
            invariant
                n == keys@.len(),
                kv == keys.deep_view(),
                m == self@,
                i <= n,
                pass <= i && fail <= i && skip <= i,
                pass as nat == count_status(m, kv.take(i as int), Status::Pass),
                fail as nat == count_status(m, kv.take(i as int), Status::Fail),
                skip as nat == count_status(m, kv.take(i as int), Status::Skip),
            decreases n - i,
        {
            proof {
                let t = kv.take(i + 1);
                assert(t.drop_last() =~= kv.take(i as int));
                assert(t.last() == kv[i as int]);
            }
            match self.entries.get(keys[i].as_str()) {
                Some(e) => match e.status {
                    Status::Pass => pass = pass + 1,
                    Status::Fail => fail = fail + 1,
                    Status::Skip => skip = skip + 1,
                },
                None => {},
            }
            i = i + 1;
        }
        assert(kv.take(n as int) =~= kv);
        (pass, fail, skip)
    }

    /// How many of all the report's keys pass, fail and are skipped.
    pub fn counts(&self) -> (r: (usize, usize, usize))
        ensures
            (r.0 as nat, r.1 as nat, r.2 as nat) == tally(self@, all_keys_spec(self@)),
    {
        let keys = self.all_keys();
        self.count_keys(&keys)
    }

    /// How many checks of the suite named `name` pass, fail and are
    /// skipped; zeros when there is no such suite.
    pub fn suite_counts(&self, name: &str) -> (r: (usize, usize, usize))
        ensures
            (r.0 as nat, r.1 as nat, r.2 as nat) == tally(self@, suite_keys(self@, name@)),
    {
        match self.find_suite(name) {
            Some(i) => {
                proof {
                    assert forall|j: int| is_first_suite(self@.order, name@, j) implies j == i by {
                        if j < i {
                            assert(!is_suite_named(self@.order[j], name@));
                        } else if j > i {
                            assert(!is_suite_named(self@.order[i as int], name@));
                        }
                    }
                }
                match &self.order[i] {
                    OrderItem::Suite { checks, .. } => self.count_keys(checks),
                    OrderItem::Check(_) => (0, 0, 0),
                }
            },
            None => {
                let empty: Vec<String> = Vec::new();
                assert(empty.deep_view() =~= Seq::<Seq<char>>::empty());
                self.count_keys(&empty)
            },
        }
    }

    /// Folds the suite named `name` if unfolded, and unfolds it if folded.
    pub fn toggle_suite(&mut self, name: &str)
        ensures
            final(self)@ == (AppModel { folded_suites: toggled(old(self)@.folded_suites, name@), ..old(self)@ }),
            report_consistent(old(self)@) ==> report_consistent(final(self)@),
            folds_consistent(old(self)@) && (old(self)@.folded_suites.contains(name@) || suite_names(
                old(self)@.order,
            ).contains(name@)) ==> folds_consistent(final(self)@),
    {
        if self.folded_suites.contains(name) {
            self.folded_suites.remove(name);
        } else {
            self.folded_suites.insert(name.to_owned());
        }
    }

    /// Hides the children of the check `key` if shown, and shows them if
    /// hidden.
    pub fn toggle_children(&mut self, key: &str)
        ensures
            final(self)@ == (AppModel { folded_checks: toggled(old(self)@.folded_checks, key@), ..old(self)@ }),
            report_consistent(old(self)@) ==> report_consistent(final(self)@),
            folds_consistent(old(self)@) && (old(self)@.folded_checks.contains(key@)
                || old(self)@.child_keys.contains_key(key@)) ==> folds_consistent(final(self)@),
    {
        if self.folded_checks.contains(key) {
            self.folded_checks.remove(key);
        } else {
            self.folded_checks.insert(key.to_owned());
        }
    }

    /// Drops every key not upserted in the current generation.
    pub fn prune(&mut self)
        ensures
            final(self)@ == prune_model(old(self)@),
            report_consistent(old(self)@) ==> report_consistent(final(self)@),
            folds_consistent(final(self)@),
    {
        let ghost m = self@;
        proof {
            if report_consistent(m) {
                crate::consistency::lemma_prune_consistent(m);
            }
        }
        let ghost live = live_keys(m);
        self.entry_generations.retain_at_least(self.generation);
        assert(self.entry_generations@.dom() =~= live);
        self.entries.retain_keys_in(&self.entry_generations);
        let mut new_order: Vec<OrderItem> = Vec::new();
        let n = self.order.len();
        let mut i: usize = 0;
        while i < n
            invariant
                n == self.order@.len(),
                i <= n,
                self.entry_generations@.dom() == live,
                m.order == self.order@.map_values(|it: OrderItem| it@),
                new_order@.map_values(|it: OrderItem| it@) == prune_order(m.order.take(i as int), live),
            decreases n - i,
        {
            proof {
                lemma_prune_order_step(m.order, live, i as int);
                assert(m.order[i as int] == self.order@[i as int]@);
            }
            let ghost before = new_order@.map_values(|it: OrderItem| it@);
            match &self.order[i] {
                OrderItem::Check(k) => {
                    if self.entry_generations.contains_key(k.as_str()) {
                        new_order.push(OrderItem::Check(k.clone()));
                        assert(new_order@.map_values(|it: OrderItem| it@) =~= before.push(
                            prune_item(m.order[i as int], live),
                        ));
                    }
                },
                OrderItem::Suite { name, checks } => {
                    let f = filter_strings_in(checks, &self.entry_generations);
                    if f.len() > 0 {
                        new_order.push(OrderItem::Suite { name: name.clone(), checks: f });
                        assert(new_order@.map_values(|it: OrderItem| it@) =~= before.push(
                            prune_item(m.order[i as int], live),
                        ));
                    }
                },
            }
            i = i + 1;
        }
        assert(m.order.take(n as int) =~= m.order);
        self.order = new_order;
        self.child_keys.retain_keys_in(&self.entry_generations);
        self.child_keys.filter_lists_in(&self.entry_generations);
        self.folded_checks.retain_keys_in(&self.child_keys);
        let suites = suite_name_set(&self.order);
        self.folded_suites.retain_members_of(&suites);
        proof {
            let target = prune_model(m);
            assert(self@.child_keys =~= target.child_keys);
            assert(self@.folded_checks =~= target.folded_checks);
            assert(self@.order == target.order);
            assert(self@.folded_suites =~= target.folded_suites);
            assert(self@.entries =~= target.entries);
            assert(self@.entry_generations =~= target.entry_generations);
        }
    }
}

} // verus!
