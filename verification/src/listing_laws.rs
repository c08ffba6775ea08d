//! What the full key list and the shown rows hold: every listed check is
//! followed by its nested children, so the counts, the streamed entries
//! and, unless folded, the list see them.
use vstd::prelude::*;

use crate::app::{
    all_keys_spec, count_status, desc_keys, desc_list, item_keys, item_rows, link_fuel, order_keys,
    order_rows, row_keys, vis_children, vis_list, visible_spec, AppModel, OrderItemView, Status,
    VisibleView,
};

verus! {

/// `desc_list(ck, list, fuel)` split around the part that `list[q]`
/// stands for: its key, then its descendants.
proof fn lemma_desc_list_split(
    ck: Map<Seq<char>, Seq<Seq<char>>>,
    list: Seq<Seq<char>>,
    fuel: nat,
    q: int,
) -> (r: (Seq<Seq<char>>, Seq<Seq<char>>))
    requires
        0 <= q < list.len(),
    ensures
        desc_list(ck, list, fuel) == r.0 + seq![list[q]] + desc_keys(ck, list[q], fuel) + r.1,
        q == 0 ==> r.0 == Seq::<Seq<char>>::empty(),
    decreases list.len(),
{
    let init = list.drop_last();
    let whole = desc_list(ck, list, fuel);
    assert(whole == desc_list(ck, init, fuel) + seq![list.last()] + desc_keys(ck, list.last(), fuel));
    if q == list.len() - 1 {
        if q == 0 {
            assert(desc_list(ck, init, fuel) == Seq::<Seq<char>>::empty());
        }
        let r = (desc_list(ck, init, fuel), Seq::<Seq<char>>::empty());
        assert(whole =~= r.0 + seq![list[q]] + desc_keys(ck, list[q], fuel) + r.1);
        r
    } else {
        let (pre, post) = lemma_desc_list_split(ck, init, fuel, q);
        assert(init[q] == list[q]);
        let post2 = post + seq![list.last()] + desc_keys(ck, list.last(), fuel);
        assert(whole =~= pre + seq![list[q]] + desc_keys(ck, list[q], fuel) + post2);
        (pre, post2)
    }
}

/// `order_keys(m, order)` split around the keys of `order[i]`.
proof fn lemma_order_keys_split(m: AppModel, order: Seq<OrderItemView>, i: int) -> (r: (
    Seq<Seq<char>>,
    Seq<Seq<char>>,
))
    requires
        0 <= i < order.len(),
    ensures
        order_keys(m, order) == r.0 + item_keys(m, order[i]) + r.1,
    decreases order.len(),
{
    let init = order.drop_last();
    if i == order.len() - 1 {
        let r = (order_keys(m, init), Seq::<Seq<char>>::empty());
        assert(order_keys(m, order) =~= r.0 + item_keys(m, order[i]) + r.1);
        r
    } else {
        let (pre, post) = lemma_order_keys_split(m, init, i);
        assert(init[i] == order[i]);
        let post2 = post + item_keys(m, order.last());
        assert(order_keys(m, order) =~= pre + item_keys(m, order[i]) + post2);
        (pre, post2)
    }
}

/// A key among `keys` whose entry has status `st` is counted.
proof fn lemma_counted(m: AppModel, keys: Seq<Seq<char>>, p: int, st: Status)
    requires
        0 <= p < keys.len(),
        m.entries.contains_key(keys[p]),
        m.entries[keys[p]].status == st,
    ensures
        count_status(m, keys, st) >= 1,
    decreases keys.len(),
{
    if p < keys.len() - 1 {
        assert(keys.drop_last()[p] == keys[p]);
        lemma_counted(m, keys.drop_last(), p, st);
    }
}

/// In the full key list a key that a row of the report lists comes right
/// before its first direct child, and every direct child of it is listed:
/// nested results are never left out.
pub proof fn law_all_keys_list_children(m: AppModel, i: int, q: int, j: int)
    requires
        m.child_keys.dom().finite(),
        0 <= i < m.order.len(),
        0 <= q < row_keys(m.order[i]).len(),
        m.child_keys.contains_key(row_keys(m.order[i])[q]),
        0 <= j < m.child_keys[row_keys(m.order[i])[q]].len(),
    ensures
        ({
            let k = row_keys(m.order[i])[q];
            let keys = all_keys_spec(m);
            &&& keys.contains(m.child_keys[k][j])
            &&& exists|p: int|
                0 <= p && p + 1 < keys.len() && #[trigger] keys[p] == k && keys[p + 1] == m.child_keys[k][0]
        }),
{
    let ck = m.child_keys;
    let f = link_fuel(ck);
    let row = row_keys(m.order[i]);
    let k = row[q];
    let kids = ck[k];
    let keys = all_keys_spec(m);
    assert(ck.dom().contains(k));
    assert(ck.dom().remove(k).len() + 1 == ck.dom().len());
    assert(f >= 1);
    let (pre, post) = lemma_order_keys_split(m, m.order, i);
    assert(item_keys(m, m.order[i]) == desc_list(ck, row, f));
    let (a, b) = lemma_desc_list_split(ck, row, f, q);
    let dk = desc_keys(ck, k, f);
    assert(dk == desc_list(ck, kids, (f - 1) as nat));
    let (c, d) = lemma_desc_list_split(ck, kids, (f - 1) as nat, j);
    let (c0, d0) = lemma_desc_list_split(ck, kids, (f - 1) as nat, 0);
    assert(keys =~= pre + a + seq![k] + dk + b + post);
    assert(dk =~= c + seq![kids[j]] + desc_keys(ck, kids[j], (f - 1) as nat) + d);
    assert(dk[0] == kids[0]);
    let p: int = pre.len() + a.len() as int;
    assert(keys[p] == k);
    assert(keys[p + 1] == kids[0]);
    assert(dk[c.len() as int] == kids[j]);
    assert(keys[p + 1 + c.len() as int] == kids[j]);
}

/// `y` is a direct child of `x`.
pub open spec fn child_link(ck: Map<Seq<char>, Seq<Seq<char>>>, x: Seq<char>, y: Seq<char>) -> bool {
    ck.contains_key(x) && ck[x].contains(y)
}

/// The full key list split around the last key of a chain of child links
/// that starts at a key a row lists: that key, then its descendants, with
/// one level of expansion spent per link.
proof fn lemma_chain_split(m: AppModel, i: int, q: int, chain: Seq<Seq<char>>) -> (r: (Seq<Seq<char>>, Seq<Seq<char>>))
    requires
        0 <= i < m.order.len(),
        0 <= q < row_keys(m.order[i]).len(),
        0 < chain.len() <= link_fuel(m.child_keys) + 1,
        chain[0] == row_keys(m.order[i])[q],
        forall|t: int| 0 < t < chain.len() ==> child_link(m.child_keys, chain[t - 1], #[trigger] chain[t]),
    ensures
        all_keys_spec(m) == r.0 + seq![chain.last()] + desc_keys(
            m.child_keys,
            chain.last(),
            (link_fuel(m.child_keys) + 1 - chain.len()) as nat,
        ) + r.1,
    decreases chain.len(),
{
    let ck = m.child_keys;
    let f = link_fuel(ck);
    let keys = all_keys_spec(m);
    if chain.len() == 1 {
        let row = row_keys(m.order[i]);
        let (pre, post) = lemma_order_keys_split(m, m.order, i);
        assert(item_keys(m, m.order[i]) == desc_list(ck, row, f));
        let (a, b) = lemma_desc_list_split(ck, row, f, q);
        let r = (pre + a, b + post);
        assert(keys =~= r.0 + seq![chain.last()] + desc_keys(ck, chain.last(), f) + r.1);
        r
    } else {
        let init = chain.drop_last();
        assert forall|t: int| 0 < t < init.len() implies child_link(ck, init[t - 1], #[trigger] init[t]) by {
            assert(init[t] == chain[t]);
            assert(init[t - 1] == chain[t - 1]);
        }
        let (p, s) = lemma_chain_split(m, i, q, init);
        let x = init.last();
        let y = chain.last();
        let g = (f + 1 - init.len()) as nat;
        assert(child_link(ck, chain[chain.len() - 2], chain[chain.len() - 1]));
        assert(x == chain[chain.len() - 2]);
        let j = choose|j: int| 0 <= j < ck[x].len() && ck[x][j] == y;
        assert(desc_keys(ck, x, g) == desc_list(ck, ck[x], (g - 1) as nat));
        let (a, b) = lemma_desc_list_split(ck, ck[x], (g - 1) as nat, j);
        let r = (p + seq![x] + a, b + s);
        assert(keys =~= r.0 + seq![y] + desc_keys(ck, y, (g - 1) as nat) + r.1);
        r
    }
}

/// The full key list holds every descendant of a key that a row of the
/// report lists, however deeply nested: the last key of a chain of child
/// links from it that repeats no key is listed, and when its entry has
/// status `st` the report's count of `st` is at least one.
pub proof fn law_all_keys_list_descendants(m: AppModel, i: int, q: int, chain: Seq<Seq<char>>, st: Status)
    requires
        m.child_keys.dom().finite(),
        m.child_keys.len() < usize::MAX - 3,
        0 <= i < m.order.len(),
        0 <= q < row_keys(m.order[i]).len(),
        chain.len() > 0,
        chain[0] == row_keys(m.order[i])[q],
        chain.no_duplicates(),
        forall|t: int| 0 < t < chain.len() ==> child_link(m.child_keys, chain[t - 1], #[trigger] chain[t]),
    ensures
        all_keys_spec(m).contains(chain.last()),
        m.entries.contains_key(chain.last()) && m.entries[chain.last()].status == st ==> count_status(
            m,
            all_keys_spec(m),
            st,
        ) >= 1,
{
    let ck = m.child_keys;
    let init = chain.drop_last();
    assert(init.no_duplicates());
    assert forall|k: Seq<char>| init.to_set().contains(k) implies ck.dom().contains(k) by {
        let t = choose|t: int| 0 <= t < init.len() && init[t] == k;
        assert(child_link(ck, chain[t], chain[t + 1]));
    }
    init.unique_seq_to_set();
    vstd::set_lib::lemma_len_subset(init.to_set(), ck.dom());
    let (p, s) = lemma_chain_split(m, i, q, chain);
    let keys = all_keys_spec(m);
    assert(keys[p.len() as int] == chain.last());
    if m.entries.contains_key(chain.last()) && m.entries[chain.last()].status == st {
        lemma_counted(m, keys, p.len() as int, st);
    }
}

/// `vis_list(m, list, depth, fuel)` split around the rows of `list[q]`:
/// its own row, then the rows shown below it.
proof fn lemma_vis_list_split(m: AppModel, list: Seq<Seq<char>>, depth: nat, fuel: nat, q: int) -> (r: (
    Seq<VisibleView>,
    Seq<VisibleView>,
))
    requires
        0 <= q < list.len(),
    ensures
        vis_list(m, list, depth, fuel) == r.0 + seq![VisibleView::Check { key: list[q], depth }]
            + vis_children(m, list[q], depth + 1, fuel) + r.1,
        q == 0 ==> r.0 == Seq::<VisibleView>::empty(),
    decreases list.len(),
{
    let init = list.drop_last();
    let whole = vis_list(m, list, depth, fuel);
    if q == list.len() - 1 {
        if q == 0 {
            assert(vis_list(m, init, depth, fuel) == Seq::<VisibleView>::empty());
        }
        let r = (vis_list(m, init, depth, fuel), Seq::<VisibleView>::empty());
        assert(whole =~= r.0 + seq![VisibleView::Check { key: list[q], depth }] + vis_children(
            m,
            list[q],
            depth + 1,
            fuel,
        ) + r.1);
        r
    } else {
        let (pre, post) = lemma_vis_list_split(m, init, depth, fuel, q);
        assert(init[q] == list[q]);
        let post2 = post + seq![VisibleView::Check { key: list.last(), depth }] + vis_children(
            m,
            list.last(),
            depth + 1,
            fuel,
        );
        assert(whole =~= pre + seq![VisibleView::Check { key: list[q], depth }] + vis_children(
            m,
            list[q],
            depth + 1,
            fuel,
        ) + post2);
        (pre, post2)
    }
}

/// `order_rows(m, order)` split around the rows of `order[i]`.
proof fn lemma_order_rows_split(m: AppModel, order: Seq<OrderItemView>, i: int) -> (r: (
    Seq<VisibleView>,
    Seq<VisibleView>,
))
    requires
        0 <= i < order.len(),
    ensures
        order_rows(m, order) == r.0 + item_rows(m, order[i]) + r.1,
    decreases order.len(),
{
    let init = order.drop_last();
    if i == order.len() - 1 {
        let r = (order_rows(m, init), Seq::<VisibleView>::empty());
        assert(order_rows(m, order) =~= r.0 + item_rows(m, order[i]) + r.1);
        r
    } else {
        let (pre, post) = lemma_order_rows_split(m, init, i);
        assert(init[i] == order[i]);
        let post2 = post + item_rows(m, order.last());
        assert(order_rows(m, order) =~= pre + item_rows(m, order[i]) + post2);
        (pre, post2)
    }
}

/// A listed check whose children are not folded away is shown with its
/// first child on the row right below it, one level deeper: a flat check
/// at depth 0, a check of an unfolded suite at depth 1.
pub proof fn law_rows_show_unfolded_children(m: AppModel, i: int, q: int)
    requires
        m.child_keys.dom().finite(),
        0 <= i < m.order.len(),
        0 <= q < row_keys(m.order[i]).len(),
        m.order[i] matches OrderItemView::Suite { name, .. } ==> !m.folded_suites.contains(name),
        m.child_keys.contains_key(row_keys(m.order[i])[q]),
        m.child_keys[row_keys(m.order[i])[q]].len() > 0,
        !m.folded_checks.contains(row_keys(m.order[i])[q]),
    ensures
        ({
            let k = row_keys(m.order[i])[q];
            let d: nat = if m.order[i] is Suite {
                1
            } else {
                0
            };
            let vis = visible_spec(m);
            exists|p: int|
                0 <= p && p + 1 < vis.len() && #[trigger] vis[p] == (VisibleView::Check { key: k, depth: d })
                    && vis[p + 1] == (VisibleView::Check { key: m.child_keys[k][0], depth: d + 1 })
        }),
{
    let ck = m.child_keys;
    let f = link_fuel(ck);
    let row = row_keys(m.order[i]);
    let k = row[q];
    let d: nat = if m.order[i] is Suite {
        1
    } else {
        0
    };
    let vis = visible_spec(m);
    assert(ck.dom().contains(k));
    assert(ck.dom().remove(k).len() + 1 == ck.dom().len());
    assert(f >= 1);
    let (pre, post) = lemma_order_rows_split(m, m.order, i);
    let (a, b) = lemma_vis_list_split(m, row, d, f, q);
    let head: Seq<VisibleView> = if m.order[i] is Suite {
        seq![VisibleView::Suite(m.order[i]->name)]
    } else {
        Seq::empty()
    };
    assert(item_rows(m, m.order[i]) =~= head + vis_list(m, row, d, f));
    let kids = ck[k];
    let vc = vis_children(m, k, d + 1, f);
    assert(vc == vis_list(m, kids, d + 1, (f - 1) as nat));
    let (c0, d0) = lemma_vis_list_split(m, kids, d + 1, (f - 1) as nat, 0);
    assert(vis =~= pre + head + a + seq![VisibleView::Check { key: k, depth: d }] + vc + b + post);
    assert(vc[0] == (VisibleView::Check { key: kids[0], depth: d + 1 }));
    let p: int = pre.len() + head.len() + a.len() as int;
    assert(vis[p] == (VisibleView::Check { key: k, depth: d }));
    assert(vis[p + 1] == (VisibleView::Check { key: kids[0], depth: d + 1 }));
}

} // verus!
