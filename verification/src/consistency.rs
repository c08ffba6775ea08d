//! That the report holds together: what the order lists and what child
//! links name always has an entry, and pruning leaves the fold marks on
//! what can fold.
use vstd::prelude::*;

use crate::app::{
    child_key_list, is_first_suite, key_spec, opt_str_view, place_key, prune_model, report_consistent, row_keys,
    suite_checks, upsert_model, AppModel, CheckEntry, OrderItemView, folds_consistent,
};
use crate::upsert_laws::{children_links, children_writes, drops_link, lemma_node_stores, node_links, node_writes};

verus! {

/// The children of `e` from position `i` on are written under their keys.
proof fn lemma_child_keys_written(p: Seq<char>, e: CheckEntry, i: nat)
    ensures
        forall|j: int|
            i <= j < e.children@.len() ==> #[trigger] children_writes(p, e, i).contains_key(
                key_spec(Some(p), e.children@[j].name@),
            ),
    decreases e.children@.len() - i,
{
    if i < e.children@.len() {
        lemma_child_keys_written(p, e, i + 1);
        let c = e.children@[i as int];
        let ck = key_spec(Some(p), c.name@);
        assert(node_writes(ck, c).contains_key(ck));
        assert forall|j: int| i <= j < e.children@.len() implies #[trigger] children_writes(p, e, i).contains_key(
            key_spec(Some(p), e.children@[j].name@),
        ) by {
            if j > i {
                assert(children_writes(p, e, i + 1).contains_key(key_spec(Some(p), e.children@[j].name@)));
            }
        }
    }
}

/// The links set when storing `e` under `key` run from and to keys
/// written in the same store.
proof fn lemma_node_links_within(key: Seq<char>, e: CheckEntry)
    ensures
        forall|k: Seq<char>| #[trigger] node_links(key, e).contains_key(k) ==> node_writes(key, e).contains_key(k),
        forall|k: Seq<char>, j: int|
            node_links(key, e).contains_key(k) && node_links(key, e)[k] is Some && 0 <= j < node_links(
                key,
                e,
            )[k]->0.len() ==> node_writes(key, e).contains_key(#[trigger] node_links(key, e)[k]->0[j]),
    decreases e, e.children@.len() + 1,
{
    lemma_children_links_within(key, e, 0);
    lemma_child_keys_written(key, e, 0);
    let w = node_writes(key, e);
    let cw = children_writes(key, e, 0);
    let cl = children_links(key, e, 0);
    assert(w.dom() == set![key].union(cw.dom()));
    assert forall|k: Seq<char>, j: int|
        node_links(key, e).contains_key(k) && node_links(key, e)[k] is Some && 0 <= j < node_links(
            key,
            e,
        )[k]->0.len() implies w.contains_key(#[trigger] node_links(key, e)[k]->0[j]) by {
        if k == key {
            assert(node_links(key, e)[k]->0 == child_key_list(key, e));
            assert(cw.contains_key(key_spec(Some(key), e.children@[j].name@)));
        } else {
            assert(cl.contains_key(k));
            assert(cw.contains_key(cl[k]->0[j]));
        }
    }
}

proof fn lemma_children_links_within(p: Seq<char>, e: CheckEntry, i: nat)
    ensures
        forall|k: Seq<char>| #[trigger] children_links(p, e, i).contains_key(k) ==> children_writes(p, e, i).contains_key(k),
        forall|k: Seq<char>, j: int|
            children_links(p, e, i).contains_key(k) && children_links(p, e, i)[k] is Some && 0 <= j
                < children_links(p, e, i)[k]->0.len() ==> children_writes(p, e, i).contains_key(
                #[trigger] children_links(p, e, i)[k]->0[j],
            ),
    decreases e, e.children@.len() - i,
{
    if i < e.children@.len() {
        let c = e.children@[i as int];
        assert(decreases_to!(e => e.children@[i as int]));
        let ck = key_spec(Some(p), c.name@);
        lemma_node_links_within(ck, c);
        lemma_children_links_within(p, e, i + 1);
        let nw = node_writes(ck, c);
        let rw = children_writes(p, e, i + 1);
        let nl = node_links(ck, c);
        let rl = children_links(p, e, i + 1);
        assert(children_writes(p, e, i) == nw.union_prefer_right(rw));
        assert(children_links(p, e, i) == nl.union_prefer_right(rl));
        assert forall|k: Seq<char>| #[trigger] children_links(p, e, i).contains_key(k) implies children_writes(
            p,
            e,
            i,
        ).contains_key(k) by {
            if rl.contains_key(k) {
                assert(rw.contains_key(k));
            } else {
                assert(nl.contains_key(k));
                assert(nw.contains_key(k));
            }
        }
        assert forall|k: Seq<char>, j: int|
            children_links(p, e, i).contains_key(k) && children_links(p, e, i)[k] is Some && 0 <= j
                < children_links(p, e, i)[k]->0.len() implies children_writes(p, e, i).contains_key(
            #[trigger] children_links(p, e, i)[k]->0[j],
        ) by {
            if rl.contains_key(k) {
                assert(rw.contains_key(rl[k]->0[j]));
            } else {
                assert(nw.contains_key(nl[k]->0[j]));
            }
        }
    } else {
        assert(children_links(p, e, i) == Map::<Seq<char>, Option<Seq<Seq<char>>>>::empty());
    }
}

/// Placing a new key keeps every row's keys among the old entries and the
/// new key, and keeps every suite non-empty.
proof fn lemma_place_key(m: AppModel, key: Seq<char>, suite: Option<Seq<char>>)
    requires
        report_consistent(m),
    ensures
        ({
            let o = place_key(m.order, key, suite);
            &&& forall|i: int, j: int|
                0 <= i < o.len() && 0 <= j < row_keys(o[i]).len() ==> (#[trigger] row_keys(o[i])[j] == key
                    || m.entries.contains_key(row_keys(o[i])[j]))
            &&& forall|i: int| 0 <= i < o.len() && (#[trigger] o[i]) is Suite ==> suite_checks(o[i]).len() > 0
        }),
{
    let o = place_key(m.order, key, suite);
    match suite {
        None => {
            assert forall|i: int, j: int| 0 <= i < o.len() && 0 <= j < row_keys(o[i]).len() implies (#[trigger] row_keys(
                o[i],
            )[j] == key || m.entries.contains_key(row_keys(o[i])[j])) by {
                if i < m.order.len() {
                    assert(o[i] == m.order[i]);
                    assert(m.entries.contains_key(row_keys(m.order[i])[j]));
                }
            }
            assert forall|i: int| 0 <= i < o.len() && (#[trigger] o[i]) is Suite implies suite_checks(o[i]).len() > 0 by {
                if i < m.order.len() {
                    assert(o[i] == m.order[i]);
                }
            }
        },
        Some(s) => {
            if exists|i: int| is_first_suite(m.order, s, i) {
                let i0 = choose|i: int| is_first_suite(m.order, s, i);
                assert(is_first_suite(m.order, s, i0));
                let old_checks = suite_checks(m.order[i0]);
                assert forall|i: int, j: int| 0 <= i < o.len() && 0 <= j < row_keys(o[i]).len() implies (#[trigger] row_keys(
                    o[i],
                )[j] == key || m.entries.contains_key(row_keys(o[i])[j])) by {
                    if i != i0 {
                        assert(o[i] == m.order[i]);
                        assert(m.entries.contains_key(row_keys(m.order[i])[j]));
                    } else {
                        assert(row_keys(o[i]) == old_checks.push(key));
                        if j < old_checks.len() {
                            assert(row_keys(m.order[i0]) == old_checks);
                            assert(m.entries.contains_key(row_keys(m.order[i0])[j]));
                        }
                    }
                }
                assert forall|i: int| 0 <= i < o.len() && (#[trigger] o[i]) is Suite implies suite_checks(o[i]).len() > 0 by {
                    if i != i0 {
                        assert(o[i] == m.order[i]);
                    }
                }
            } else {
                assert forall|i: int, j: int| 0 <= i < o.len() && 0 <= j < row_keys(o[i]).len() implies (#[trigger] row_keys(
                    o[i],
                )[j] == key || m.entries.contains_key(row_keys(o[i])[j])) by {
                    if i < m.order.len() {
                        assert(o[i] == m.order[i]);
                        assert(m.entries.contains_key(row_keys(m.order[i])[j]));
                    }
                }
                assert forall|i: int| 0 <= i < o.len() && (#[trigger] o[i]) is Suite implies suite_checks(o[i]).len() > 0 by {
                    if i < m.order.len() {
                        assert(o[i] == m.order[i]);
                    }
                }
            }
        },
    }
}

/// An upsert keeps the report together.
pub proof fn lemma_upsert_consistent(m: AppModel, e: CheckEntry)
    requires
        report_consistent(m),
    ensures
        report_consistent(upsert_model(m, e)),
{
    let key = key_spec(opt_str_view(e.suite), e.name@);
    let m1 = if m.entries.contains_key(key) {
        m
    } else {
        AppModel { order: place_key(m.order, key, opt_str_view(e.suite)), ..m }
    };
    if !m.entries.contains_key(key) {
        lemma_place_key(m, key, opt_str_view(e.suite));
    }
    lemma_node_stores(m1, key, e);
    lemma_node_links_within(key, e);
    let r = upsert_model(m, e);
    let w = node_writes(key, e);
    let l = node_links(key, e);
    assert(w.contains_key(key));
    assert forall|i: int, j: int| 0 <= i < r.order.len() && 0 <= j < row_keys(r.order[i]).len() implies r.entries.contains_key(
        #[trigger] row_keys(r.order[i])[j],
    ) by {
        assert(r.order == m1.order);
        let k = row_keys(r.order[i])[j];
        if m.entries.contains_key(key) {
            assert(m.entries.contains_key(row_keys(m.order[i])[j]));
        }
        if k != key {
            assert(m.entries.contains_key(k));
        }
    }
    assert forall|i: int| 0 <= i < r.order.len() && (#[trigger] r.order[i]) is Suite implies suite_checks(r.order[i]).len()
        > 0 by {
        assert(r.order == m1.order);
        if m.entries.contains_key(key) {
            assert(m.order[i] is Suite);
        }
    }
    assert forall|k: Seq<char>| #[trigger] r.child_keys.contains_key(k) implies r.entries.contains_key(k) by {
        if l.contains_key(k) {
            assert(w.contains_key(k));
        } else {
            assert(m1.child_keys.contains_key(k));
        }
    }
    assert forall|k: Seq<char>, j: int| r.child_keys.contains_key(k) && 0 <= j < r.child_keys[k].len() implies r.entries.contains_key(
        #[trigger] r.child_keys[k][j],
    ) by {
        if l.contains_key(k) {
            assert(l[k] is Some);
            assert(r.child_keys[k] == l[k]->0);
            assert(w.contains_key(l[k]->0[j]));
        } else {
            assert(r.child_keys[k] == m1.child_keys[k]);
            assert(m.entries.contains_key(m.child_keys[k][j]));
        }
    }
}

/// A prune keeps the report together, and leaves fold marks only on what
/// can fold.
pub proof fn lemma_prune_consistent(m: AppModel)
    requires
        report_consistent(m),
    ensures
        report_consistent(prune_model(m)),
        folds_consistent(prune_model(m)),
{
    let p = prune_model(m);
    let live = crate::app::live_keys(m);
    let t = m.order.map_values(crate::app::pruner(live));
    let keep = crate::app::keeper(live);
    assert(p.order == t.filter(keep));
    assert forall|i: int, j: int| 0 <= i < p.order.len() && 0 <= j < row_keys(p.order[i]).len() implies p.entries.contains_key(
        #[trigger] row_keys(p.order[i])[j],
    ) by {
        let x = p.order[i];
        t.lemma_filter_pred(keep, i);
        assert(t.filter(keep).contains(x));
        t.lemma_filter_contains_rev(keep, x);
        let idx = choose|idx: int| 0 <= idx < t.len() && t[idx] == x;
        assert(x == crate::app::prune_item(m.order[idx], live));
        match m.order[idx] {
            OrderItemView::Check(k) => {
                assert(row_keys(m.order[idx])[0] == k);
                assert(m.entries.contains_key(k));
            },
            OrderItemView::Suite { name, checks } => {
                let f = checks.filter(crate::table::in_set(live));
                assert(row_keys(x) == f);
                checks.lemma_filter_pred(crate::table::in_set(live), j);
                assert(f.contains(f[j]));
                checks.lemma_filter_contains_rev(crate::table::in_set(live), f[j]);
                let q = choose|q: int| 0 <= q < checks.len() && checks[q] == f[j];
                assert(row_keys(m.order[idx])[q] == checks[q]);
                assert(m.entries.contains_key(checks[q]));
            },
        }
    }
    assert forall|i: int| 0 <= i < p.order.len() && (#[trigger] p.order[i]) is Suite implies suite_checks(p.order[i]).len()
        > 0 by {
        t.lemma_filter_pred(keep, i);
    }
    assert forall|k: Seq<char>, j: int| p.child_keys.contains_key(k) && 0 <= j < p.child_keys[k].len() implies p.entries.contains_key(
        #[trigger] p.child_keys[k][j],
    ) by {
        let l = m.child_keys[k];
        let f = l.filter(crate::table::in_set(live));
        assert(p.child_keys[k] == f);
        l.lemma_filter_pred(crate::table::in_set(live), j);
        assert(f.contains(f[j]));
        l.lemma_filter_contains_rev(crate::table::in_set(live), f[j]);
        let q = choose|q: int| 0 <= q < l.len() && l[q] == f[j];
        assert(m.entries.contains_key(l[q]));
    }
}

/// Every key a store writes has its links set or dropped in that store.
proof fn lemma_node_writes_linked(key: Seq<char>, e: CheckEntry)
    ensures
        forall|k: Seq<char>| #[trigger] node_writes(key, e).contains_key(k) ==> node_links(key, e).contains_key(k),
    decreases e, e.children@.len() + 1,
{
    lemma_children_writes_linked(key, e, 0);
    assert forall|k: Seq<char>| #[trigger] node_writes(key, e).contains_key(k) implies node_links(key, e).contains_key(
        k,
    ) by {
        if k != key {
            assert(children_writes(key, e, 0).contains_key(k));
        }
    }
}

proof fn lemma_children_writes_linked(p: Seq<char>, e: CheckEntry, i: nat)
    ensures
        forall|k: Seq<char>| #[trigger] children_writes(p, e, i).contains_key(k) ==> children_links(p, e, i).contains_key(k),
    decreases e, e.children@.len() - i,
{
    if i < e.children@.len() {
        let c = e.children@[i as int];
        assert(decreases_to!(e => e.children@[i as int]));
        let ck = key_spec(Some(p), c.name@);
        lemma_node_writes_linked(ck, c);
        lemma_children_writes_linked(p, e, i + 1);
        assert forall|k: Seq<char>| #[trigger] children_writes(p, e, i).contains_key(k) implies children_links(
            p,
            e,
            i,
        ).contains_key(k) by {
            if !children_writes(p, e, i + 1).contains_key(k) {
                assert(node_writes(ck, c).contains_key(k));
            }
        }
    } else {
        assert(children_writes(p, e, i) == Map::<Seq<char>, crate::app::EntryView>::empty());
    }
}

/// Placing a new key loses no suite of the order.
proof fn lemma_place_key_names(order: Seq<OrderItemView>, key: Seq<char>, suite: Option<Seq<char>>)
    ensures
        crate::app::suite_names(order).subset_of(crate::app::suite_names(place_key(order, key, suite))),
{
    let o = place_key(order, key, suite);
    assert forall|n: Seq<char>| crate::app::suite_names(order).contains(n) implies crate::app::suite_names(o).contains(n) by {
        let i = choose|i: int| 0 <= i < order.len() && crate::app::is_suite_named(#[trigger] order[i], n);
        match suite {
            Some(s) => {
                if exists|q: int| is_first_suite(order, s, q) {
                    let i0 = choose|q: int| is_first_suite(order, s, q);
                    if i != i0 {
                        assert(o[i] == order[i]);
                    } else {
                        assert(crate::app::is_suite_named(o[i], s));
                    }
                } else {
                    assert(o[i] == order[i]);
                }
            },
            None => {
                assert(o[i] == order[i]);
            },
        }
        assert(crate::app::is_suite_named(o[i], n));
    }
}

/// An upsert keeps the fold marks on what can fold, unless it drops the
/// child links of a key it leaves folded.
pub proof fn lemma_upsert_folds(m: AppModel, e: CheckEntry)
    requires
        folds_consistent(m),
        forall|k: Seq<char>| #[trigger] upsert_model(m, e).folded_checks.contains(k) ==> !drops_link(e, k),
    ensures
        folds_consistent(upsert_model(m, e)),
{
    let key = key_spec(opt_str_view(e.suite), e.name@);
    let m1 = if m.entries.contains_key(key) {
        m
    } else {
        AppModel { order: place_key(m.order, key, opt_str_view(e.suite)), ..m }
    };
    if !m.entries.contains_key(key) {
        lemma_place_key_names(m.order, key, opt_str_view(e.suite));
    }
    lemma_node_stores(m1, key, e);
    lemma_node_writes_linked(key, e);
    let r = upsert_model(m, e);
    let w = node_writes(key, e);
    let l = node_links(key, e);
    assert forall|k: Seq<char>| r.folded_checks.contains(k) implies r.child_keys.contains_key(k) by {
        assert(!drops_link(e, k));
        if !l.contains_key(k) {
            assert(!w.contains_key(k));
            assert(m.folded_checks.contains(k));
        }
    }
}

/// An operation on the report, as plain values.
pub enum ReportOp {
    Upsert(CheckEntry),
    BumpGeneration,
    Prune,
    ToggleSuite(Seq<char>),
    ToggleChildren(Seq<char>),
}

/// What an operation makes of the report, as the operations' contracts
/// state it.
pub open spec fn apply_report_op(m: AppModel, op: ReportOp) -> AppModel {
    match op {
        ReportOp::Upsert(e) => upsert_model(m, e),
        ReportOp::BumpGeneration => AppModel { generation: (m.generation + 1) as u64, ..m },
        ReportOp::Prune => prune_model(m),
        ReportOp::ToggleSuite(n) => AppModel { folded_suites: crate::app::toggled(m.folded_suites, n), ..m },
        ReportOp::ToggleChildren(k) => AppModel { folded_checks: crate::app::toggled(m.folded_checks, k), ..m },
    }
}

/// The report reached from the empty one by `ops`, in order.
pub open spec fn run_report_ops(ops: Seq<ReportOp>) -> AppModel
    decreases ops.len(),
{
    if ops.len() == 0 {
        crate::app::empty_app_model()
    } else {
        apply_report_op(run_report_ops(ops.drop_last()), ops.last())
    }
}

/// Whatever operations built it, the report holds together: every key the
/// order lists has an entry, no suite is empty, and child links run
/// between keys with entries. Right after a prune, fold marks also sit
/// only on checks with child links and suites in the order.
pub proof fn law_reports_hold_together(ops: Seq<ReportOp>)
    ensures
        report_consistent(run_report_ops(ops)),
        ops.len() > 0 && ops.last() is Prune ==> folds_consistent(run_report_ops(ops)),
    decreases ops.len(),
{
    if ops.len() > 0 {
        law_reports_hold_together(ops.drop_last());
        let m = run_report_ops(ops.drop_last());
        match ops.last() {
            ReportOp::Upsert(e) => lemma_upsert_consistent(m, e),
            ReportOp::Prune => lemma_prune_consistent(m),
            _ => {},
        }
    }
}

} // verus!
