//! What storing an entry does, described by its writes: the last entry
//! written under each key, the child links last set or dropped, and the
//! keys touched. From these follow that upserting twice is upserting
//! once, and that what a rebuild upserts survives its prune.
use vstd::prelude::*;

use crate::app::{
    child_key_list, insert_children, insert_node, key_spec, live_keys, opt_str_view, prune_model, upsert_model,
    AppModel, CheckEntry, EntryView,
};

verus! {

/// The entries written when `e` is stored under `key`, each key with the
/// last one written to it.
pub open spec fn node_writes(key: Seq<char>, e: CheckEntry) -> Map<Seq<char>, EntryView>
    decreases e, e.children@.len() + 1,
{
    map![key => e.stored_view()].union_prefer_right(children_writes(key, e, 0))
}

pub open spec fn children_writes(parent: Seq<char>, e: CheckEntry, i: nat) -> Map<Seq<char>, EntryView>
    decreases e, e.children@.len() - i,
{
    if i >= e.children@.len() {
        Map::empty()
    } else {
        let c = e.children@[i as int];
        proof {
            assert(decreases_to!(e => e.children@[i as int]));
        }
        node_writes(key_spec(Some(parent), c.name@), c).union_prefer_right(children_writes(parent, e, i + 1))
    }
}

/// The child links set (`Some`) or dropped (`None`) when `e` is stored
/// under `key`, each key with the last change made to it.
pub open spec fn node_links(key: Seq<char>, e: CheckEntry) -> Map<Seq<char>, Option<Seq<Seq<char>>>>
    decreases e, e.children@.len() + 1,
{
    children_links(key, e, 0).insert(
        key,
        if e.children@.len() == 0 {
            None
        } else {
            Some(child_key_list(key, e))
        },
    )
}

pub open spec fn children_links(parent: Seq<char>, e: CheckEntry, i: nat) -> Map<Seq<char>, Option<Seq<Seq<char>>>>
    decreases e, e.children@.len() - i,
{
    if i >= e.children@.len() {
        Map::empty()
    } else {
        let c = e.children@[i as int];
        proof {
            assert(decreases_to!(e => e.children@[i as int]));
        }
        node_links(key_spec(Some(parent), c.name@), c).union_prefer_right(children_links(parent, e, i + 1))
    }
}

/// Storing `e` drops the child links of `k`: the last link change the
/// store makes to `k` removes them.
pub open spec fn drops_link(e: CheckEntry, k: Seq<char>) -> bool {
    let l = node_links(key_spec(opt_str_view(e.suite), e.name@), e);
    l.contains_key(k) && l[k] is None
}

/// `links` applied to `m`: set links replace, dropped links go.
pub open spec fn apply_links(m: Map<Seq<char>, Seq<Seq<char>>>, links: Map<Seq<char>, Option<Seq<Seq<char>>>>) -> Map<Seq<char>, Seq<Seq<char>>> {
    Map::new(
        |k: Seq<char>|
            if links.contains_key(k) {
                links[k] is Some
            } else {
                m.contains_key(k)
            },
        |k: Seq<char>|
            if links.contains_key(k) {
                links[k]->0
            } else {
                m[k]
            },
    )
}

/// Every key of `keys` stamped with generation `g`.
pub open spec fn stamped(keys: Set<Seq<char>>, g: u64) -> Map<Seq<char>, u64> {
    Map::new(|k: Seq<char>| keys.contains(k), |k: Seq<char>| g)
}

/// The effect of storing: entries overlaid with the writes, generations
/// stamped on the keys written, links applied; order, suites' fold state
/// and generation untouched; fold state of checks only grows.
pub open spec fn stores(x: AppModel, r: AppModel, w: Map<Seq<char>, EntryView>, l: Map<Seq<char>, Option<Seq<Seq<char>>>>) -> bool {
    &&& r.entries == x.entries.union_prefer_right(w)
    &&& r.entry_generations == x.entry_generations.union_prefer_right(stamped(w.dom(), x.generation))
    &&& r.child_keys == apply_links(x.child_keys, l)
    &&& r.order == x.order
    &&& r.folded_suites == x.folded_suites
    &&& r.generation == x.generation
    &&& x.folded_checks.subset_of(r.folded_checks)
    &&& r.folded_checks.subset_of(x.folded_checks.union(w.dom().difference(x.entries.dom())))
    &&& (w.dom().subset_of(x.entries.dom()) ==> r.folded_checks == x.folded_checks)
}

proof fn lemma_union_assoc<V>(a: Map<Seq<char>, V>, b: Map<Seq<char>, V>, c: Map<Seq<char>, V>)
    ensures
        a.union_prefer_right(b).union_prefer_right(c) == a.union_prefer_right(b.union_prefer_right(c)),
{
    assert(a.union_prefer_right(b).union_prefer_right(c) =~= a.union_prefer_right(b.union_prefer_right(c)));
}

proof fn lemma_apply_links_compose(
    m: Map<Seq<char>, Seq<Seq<char>>>,
    a: Map<Seq<char>, Option<Seq<Seq<char>>>>,
    b: Map<Seq<char>, Option<Seq<Seq<char>>>>,
)
    ensures
        apply_links(apply_links(m, a), b) == apply_links(m, a.union_prefer_right(b)),
{
    assert(apply_links(apply_links(m, a), b) =~= apply_links(m, a.union_prefer_right(b)));
}

proof fn lemma_stamped_union(a: Set<Seq<char>>, b: Set<Seq<char>>, g: u64)
    ensures
        stamped(a, g).union_prefer_right(stamped(b, g)) == stamped(a.union(b), g),
{
    assert(stamped(a, g).union_prefer_right(stamped(b, g)) =~= stamped(a.union(b), g));
}

/// Storing `e` under `key` has the effect of its writes.
pub proof fn lemma_node_stores(x: AppModel, key: Seq<char>, e: CheckEntry)
    ensures
        stores(x, insert_node(x, key, e), node_writes(key, e), node_links(key, e)),
    decreases e, e.children@.len() + 1,
{
    let g = x.generation;
    let m1 = AppModel {
        entry_generations: x.entry_generations.insert(key, g),
        entries: x.entries.insert(key, e.stored_view()),
        ..x
    };
    lemma_children_store(m1, key, e, 0);
    let m2 = insert_children(m1, key, e, 0);
    let cw = children_writes(key, e, 0);
    let cl = children_links(key, e, 0);
    let single = map![key => e.stored_view()];
    assert(m1.entries == x.entries.union_prefer_right(single)) by {
        assert(m1.entries =~= x.entries.union_prefer_right(single));
    }
    lemma_union_assoc(x.entries, single, cw);
    assert(single.dom() =~= set![key]);
    assert(m1.entry_generations == x.entry_generations.union_prefer_right(stamped(set![key], g))) by {
        assert(m1.entry_generations =~= x.entry_generations.union_prefer_right(stamped(set![key], g)));
    }
    lemma_union_assoc(x.entry_generations, stamped(set![key], g), stamped(cw.dom(), g));
    lemma_stamped_union(set![key], cw.dom(), g);
    assert(single.union_prefer_right(cw).dom() =~= set![key].union(cw.dom()));
    let r = insert_node(x, key, e);
    let last = if e.children@.len() == 0 {
        None
    } else {
        Some(child_key_list(key, e))
    };
    assert(r.child_keys == apply_links(m2.child_keys, map![key => last])) by {
        assert(r.child_keys =~= apply_links(m2.child_keys, map![key => last]));
    }
    lemma_apply_links_compose(x.child_keys, cl, map![key => last]);
    assert(cl.union_prefer_right(map![key => last]) =~= node_links(key, e));
    assert(node_writes(key, e).dom().contains(key));
    if node_writes(key, e).dom().subset_of(x.entries.dom()) {
        assert(x.entries.dom().contains(key));
        assert(cw.dom().subset_of(m1.entries.dom()));
    }
}

/// Storing the children of `e` from position `i` on has the effect of
/// their writes.
pub proof fn lemma_children_store(x: AppModel, parent: Seq<char>, e: CheckEntry, i: nat)
    ensures
        stores(x, insert_children(x, parent, e, i), children_writes(parent, e, i), children_links(parent, e, i)),
    decreases e, e.children@.len() - i,
{
    if i >= e.children@.len() {
        assert(x.entries.union_prefer_right(Map::empty()) =~= x.entries);
        assert(stamped(Map::<Seq<char>, EntryView>::empty().dom(), x.generation) =~= Map::empty());
        assert(x.entry_generations.union_prefer_right(Map::empty()) =~= x.entry_generations);
        assert(apply_links(x.child_keys, Map::empty()) =~= x.child_keys);
    } else {
        let c = e.children@[i as int];
        assert(decreases_to!(e => e.children@[i as int]));
        let ck = key_spec(Some(parent), c.name@);
        lemma_node_stores(x, ck, c);
        let y = insert_node(x, ck, c);
        lemma_children_store(y, parent, e, i + 1);
        let nw = node_writes(ck, c);
        let rw = children_writes(parent, e, i + 1);
        lemma_union_assoc(x.entries, nw, rw);
        lemma_union_assoc(x.entry_generations, stamped(nw.dom(), x.generation), stamped(rw.dom(), x.generation));
        lemma_stamped_union(nw.dom(), rw.dom(), x.generation);
        assert(nw.union_prefer_right(rw).dom() =~= nw.dom().union(rw.dom()));
        lemma_apply_links_compose(x.child_keys, node_links(ck, c), children_links(parent, e, i + 1));
        if nw.union_prefer_right(rw).dom().subset_of(x.entries.dom()) {
            assert(nw.dom().subset_of(x.entries.dom()));
            assert(rw.dom().subset_of(y.entries.dom()));
        }
    }
}

/// Upserting the same entry twice leaves the report as upserting it once.
pub proof fn law_upsert_idempotent(m: AppModel, e: CheckEntry)
    ensures
        upsert_model(upsert_model(m, e), e) == upsert_model(m, e),
{
    let key = key_spec(opt_str_view(e.suite), e.name@);
    let u = upsert_model(m, e);
    let m1 = if m.entries.contains_key(key) {
        m
    } else {
        AppModel { order: crate::app::place_key(m.order, key, opt_str_view(e.suite)), ..m }
    };
    let w = node_writes(key, e);
    let l = node_links(key, e);
    lemma_node_stores(m1, key, e);
    assert(w.dom().contains(key));
    assert(u.entries.contains_key(key));
    lemma_node_stores(u, key, e);
    let v = insert_node(u, key, e);
    assert(w.dom().subset_of(u.entries.dom()));
    assert(v.entries =~= u.entries);
    assert(v.entry_generations =~= u.entry_generations);
    lemma_apply_links_compose(m1.child_keys, l, l);
    assert(l.union_prefer_right(l) =~= l);
    assert(v.child_keys == u.child_keys);
    assert(v == u);
}

/// What a rebuild delivers survives its end: an entry upserted in the
/// current generation is still there after the prune.
pub proof fn law_upserted_survives_prune(m: AppModel, e: CheckEntry)
    ensures
        prune_model(upsert_model(m, e)).entries.contains_key(key_spec(opt_str_view(e.suite), e.name@)),
        prune_model(upsert_model(m, e)).entries[key_spec(opt_str_view(e.suite), e.name@)] == e.stored_view(),
{
    law_upsert_then_read(m, e);
    let key = key_spec(opt_str_view(e.suite), e.name@);
    let m1 = if m.entries.contains_key(key) {
        m
    } else {
        AppModel { order: crate::app::place_key(m.order, key, opt_str_view(e.suite)), ..m }
    };
    lemma_node_stores(m1, key, e);
    let u = upsert_model(m, e);
    assert(node_writes(key, e).dom().contains(key));
    assert(stamped(node_writes(key, e).dom(), m1.generation).contains_key(key));
    assert(u.entry_generations[key] == u.generation);
    assert(live_keys(u).contains(key));
}

/// A rebuild that delivers nothing leaves nothing: when a new generation
/// starts and nothing is upserted before the prune, every entry, row,
/// link and fold goes.
pub proof fn law_empty_rebuild_clears(m: AppModel)
    requires
        m.generation < u64::MAX,
        gens_valid(m),
    ensures
        ({
            let p = prune_model(AppModel { generation: (m.generation + 1) as u64, ..m });
            &&& p.entries == Map::<Seq<char>, EntryView>::empty()
            &&& p.order.len() == 0
            &&& p.child_keys == Map::<Seq<char>, Seq<Seq<char>>>::empty()
            &&& p.folded_suites == Set::<Seq<char>>::empty()
            &&& p.folded_checks == Set::<Seq<char>>::empty()
        }),
{
    let b = AppModel { generation: (m.generation + 1) as u64, ..m };
    let live = live_keys(b);
    assert(live =~= Set::<Seq<char>>::empty());
    let t = b.order.map_values(crate::app::pruner(live));
    assert forall|i: int| 0 <= i < t.len() implies !(#[trigger] crate::app::keeper(live)(t[i])) by {
        match b.order[i] {
            crate::app::OrderItemView::Suite { name, checks } => {
                checks.lemma_all_neg_filter_empty(crate::table::in_set(live));
            },
            crate::app::OrderItemView::Check(k) => {},
        }
    }
    assert(t.all(|x: crate::app::OrderItemView| !crate::app::keeper(live)(x)));
    t.lemma_all_neg_filter_empty(crate::app::keeper(live));
    let p = prune_model(b);
    assert(p.entries =~= Map::<Seq<char>, EntryView>::empty());
    assert(p.child_keys =~= Map::<Seq<char>, Seq<Seq<char>>>::empty());
    assert(p.folded_suites =~= Set::<Seq<char>>::empty());
    assert(p.folded_checks =~= Set::<Seq<char>>::empty());
}

/// Every key written under `key` is `key` itself or longer.
proof fn lemma_node_write_keys(key: Seq<char>, e: CheckEntry)
    ensures
        forall|k: Seq<char>| #[trigger] node_writes(key, e).contains_key(k) ==> k == key || k.len() > key.len(),
    decreases e, e.children@.len() + 1,
{
    lemma_children_write_keys(key, e, 0);
    let cw = children_writes(key, e, 0);
    assert forall|k: Seq<char>| #[trigger] node_writes(key, e).contains_key(k) implies k == key || k.len()
        > key.len() by {
        assert(node_writes(key, e).dom() == set![key].union(cw.dom()));
        if k != key {
            assert(cw.contains_key(k));
        }
    }
}

/// Every key written for the children of `parent` is longer than
/// `parent`.
proof fn lemma_children_write_keys(parent: Seq<char>, e: CheckEntry, i: nat)
    ensures
        forall|k: Seq<char>| #[trigger] children_writes(parent, e, i).contains_key(k) ==> k.len() > parent.len(),
    decreases e, e.children@.len() - i,
{
    if i < e.children@.len() {
        let c = e.children@[i as int];
        assert(decreases_to!(e => e.children@[i as int]));
        let ck = key_spec(Some(parent), c.name@);
        lemma_node_write_keys(ck, c);
        lemma_children_write_keys(parent, e, i + 1);
        assert(ck.len() > parent.len());
        let nw = node_writes(ck, c);
        let rw = children_writes(parent, e, i + 1);
        assert forall|k: Seq<char>| #[trigger] children_writes(parent, e, i).contains_key(k) implies k.len()
            > parent.len() by {
            assert(children_writes(parent, e, i) == nw.union_prefer_right(rw));
            if !rw.contains_key(k) {
                assert(nw.contains_key(k));
            }
        }
    } else {
        assert(children_writes(parent, e, i) == Map::<Seq<char>, EntryView>::empty());
    }
}

/// A read gives back the write: right after an upsert, its key holds the
/// entry's own fields (its nested entries are stored under their own
/// keys).
pub proof fn law_upsert_then_read(m: AppModel, e: CheckEntry)
    ensures
        ({
            let key = key_spec(opt_str_view(e.suite), e.name@);
            &&& upsert_model(m, e).entries.contains_key(key)
            &&& upsert_model(m, e).entries[key] == e.stored_view()
        }),
{
    let key = key_spec(opt_str_view(e.suite), e.name@);
    let m1 = if m.entries.contains_key(key) {
        m
    } else {
        AppModel { order: crate::app::place_key(m.order, key, opt_str_view(e.suite)), ..m }
    };
    lemma_node_stores(m1, key, e);
    lemma_children_write_keys(key, e, 0);
    assert(!children_writes(key, e, 0).contains_key(key));
    assert(node_writes(key, e)[key] == e.stored_view());
}

/// A rebuild drops what it did not deliver: once a new generation starts,
/// a key not upserted again is gone after the prune, however many
/// generations it was delivered in before.
pub proof fn law_stale_pruned(m: AppModel, k: Seq<char>)
    requires
        m.generation < u64::MAX,
        gens_valid(m),
    ensures
        !prune_model(AppModel { generation: (m.generation + 1) as u64, ..m }).entries.contains_key(k),
{
    let b = AppModel { generation: (m.generation + 1) as u64, ..m };
    assert(!live_keys(b).contains(k));
}

/// No key is stamped with a generation later than the current one.
pub open spec fn gens_valid(m: AppModel) -> bool {
    forall|j: Seq<char>| #[trigger] m.entry_generations.contains_key(j) ==> m.entry_generations[j] <= m.generation
}

/// Every operation keeps generations from running ahead: the empty report
/// has none, an upsert stamps the current generation, a prune only drops
/// stamps, and a new generation is later than all of them.
pub proof fn law_generations_never_ahead(m: AppModel, e: CheckEntry)
    requires
        gens_valid(m),
    ensures
        gens_valid(crate::app::empty_app_model()),
        gens_valid(upsert_model(m, e)),
        gens_valid(prune_model(m)),
        m.generation < u64::MAX ==> gens_valid(AppModel { generation: (m.generation + 1) as u64, ..m }),
{
    let key = key_spec(opt_str_view(e.suite), e.name@);
    let m1 = if m.entries.contains_key(key) {
        m
    } else {
        AppModel { order: crate::app::place_key(m.order, key, opt_str_view(e.suite)), ..m }
    };
    lemma_node_stores(m1, key, e);
}

/// A check delivered with children for the first time starts with them
/// hidden; delivering it again keeps whatever fold the user chose.
pub proof fn law_new_children_start_folded(m: AppModel, e: CheckEntry)
    ensures
        ({
            let key = key_spec(opt_str_view(e.suite), e.name@);
            !m.entries.contains_key(key) && e.children@.len() > 0 ==> upsert_model(m, e).folded_checks.contains(key)
        }),
        ({
            let key = key_spec(opt_str_view(e.suite), e.name@);
            m.entries.contains_key(key) ==> (upsert_model(m, e).folded_checks.contains(key) <==> m.folded_checks.contains(
                key,
            ))
        }),
{
    let key = key_spec(opt_str_view(e.suite), e.name@);
    lemma_node_stores(m, key, e);
}

} // verus!
