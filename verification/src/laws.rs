//! Properties that hold across operations of the viewer, stated over the
//! models the operations' contracts use.
use vstd::prelude::*;

use crate::app::{count_status, toggled, AppModel, EntryView, Status, VisibleView};
use crate::config::{chosen_preset, resolved_map, Config};
use crate::detail_view::{clamp_spec, maxes_spec, other_focus, toggle_spec, DetailFocus, DetailModel};
use crate::keymap::{preset_map, KeyCombo, PresetName};
use crate::list_view::{first_suite_from, last_suite_before, next_sel, next_suite_spec, prev_sel, prev_suite_spec};
use crate::stream::emit_spec;
use crate::ui::{anchor_of, is_first_match, reselect_spec};
use crate::wrap::wrap_count_spec;

verus! {

/// Folding something twice leaves the fold state as it was: toggling a
/// suite or a check's children is its own inverse.
pub proof fn law_toggle_twice(s: Set<Seq<char>>, k: Seq<char>)
    ensures
        toggled(toggled(s, k), k) == s,
{
    if s.contains(k) {
        assert(s.remove(k).insert(k) =~= s);
    } else {
        assert(s.insert(k).remove(k) =~= s);
    }
}

/// Switching the focused output twice returns to where it was.
pub proof fn law_focus_twice(f: DetailFocus)
    ensures
        other_focus(other_focus(f)) == f,
{
}

/// Toggling the detail panel twice leaves it as open or closed as it was.
pub proof fn law_detail_toggle_twice(d: DetailModel)
    ensures
        toggle_spec(toggle_spec(d).0).0.open == d.open,
        toggle_spec(toggle_spec(d).0).1 == toggle_spec(d).1,
{
}

/// Moving the selection down or up in a non-empty list, from nowhere or
/// from one of its rows, always lands on a row of it, one step away at
/// most.
pub proof fn law_selection_in_range(sel: Option<usize>, n: int)
    requires
        0 < n <= usize::MAX,
        sel matches Some(i) ==> i < n,
    ensures
        next_sel(sel, n) matches Some(i) && i < n,
        prev_sel(sel, n) matches Some(i) && i < n,
        forall|i: usize|
            sel == Some(i) && i < n ==> (next_sel(sel, n) matches Some(j) && i <= j && j <= i + 1),
        forall|i: usize|
            sel == Some(i) && i < n ==> (prev_sel(sel, n) matches Some(j) && j <= i && i <= j + 1),
{
}

/// After a rebuild the selection, if any, is a row of the new list; when
/// the row it was on is still listed, it is on that row again.
pub proof fn law_reselect(sel: Option<usize>, before: Seq<VisibleView>, after: Seq<VisibleView>)
    requires
        after.len() <= usize::MAX,
    ensures
        reselect_spec(sel, before, after) matches Some(j) ==> j < after.len(),
        forall|i: usize|
            sel == Some(i) && i < before.len() && after.len() > 0 && (exists|j: int|
                is_first_match(after, anchor_of(before[i as int]), j)) ==> (#[trigger] reselect_spec(
                Some(i),
                before,
                after,
            ) matches Some(j) && is_first_match(after, anchor_of(before[i as int]), j as int)),
{
    if let Some(i) = sel {
        if i < before.len() && after.len() > 0 {
            let a = anchor_of(before[i as int]);
            if exists|j: int| is_first_match(after, a, j) {
                let c = choose|j: int| is_first_match(after, a, j);
                assert(is_first_match(after, a, c));
            }
        }
    }
}

/// Scrolling never goes past the end: after clamping, each scroll is
/// within what the shown check's output allows.
pub proof fn law_clamp_within_bounds(d: DetailModel, m: AppModel)
    requires
        d.key matches Some(k) && m.entries.contains_key(k),
    ensures
        ({
            let e = m.entries[d.key->0];
            let c = clamp_spec(d, m);
            &&& c.stdout_scroll <= maxes_spec(e.stdout, d.stdout_bounds).0
            &&& c.stdout_h_scroll <= maxes_spec(e.stdout, d.stdout_bounds).1
            &&& c.stderr_scroll <= maxes_spec(e.stderr, d.stderr_bounds).0
            &&& c.stderr_h_scroll <= maxes_spec(e.stderr, d.stderr_bounds).1
        }),
{
}

/// Keys each counted once: the passed, failed and skipped checks among
/// `keys` add up to the keys that hold an entry, at most all of them.
pub proof fn law_counts_add_up(m: AppModel, keys: Seq<Seq<char>>)
    ensures
        count_status(m, keys, Status::Pass) + count_status(m, keys, Status::Fail) + count_status(
            m,
            keys,
            Status::Skip,
        ) == keys.filter(|k: Seq<char>| m.entries.contains_key(k)).len(),
        keys.filter(|k: Seq<char>| m.entries.contains_key(k)).len() <= keys.len(),
    decreases keys.len(),
{
    let f = |k: Seq<char>| m.entries.contains_key(k);
    if keys.len() > 0 {
        law_counts_add_up(m, keys.drop_last());
        assert(keys.drop_last().push(keys.last()) =~= keys);
        keys.drop_last().lemma_filter_push(keys.last(), f);
    } else {
        assert(keys.filter(f) =~= Seq::<Seq<char>>::empty());
    }
}

/// The configuration's own bindings win over the preset's; every other
/// combination keeps what the preset binds it to. The preset is the
/// command line's, else the configuration's, else QWERTY.
pub proof fn law_config_overrides_preset(config: Config, cli_keymap: Option<PresetName>, k: KeyCombo)
    ensures
        config.bindings@.contains_key(k) ==> resolved_map(Some(config), cli_keymap)[k] == config.bindings@[k],
        !config.bindings@.contains_key(k) ==> (resolved_map(Some(config), cli_keymap).contains_key(k)
            <==> preset_map(chosen_preset(Some(config), cli_keymap)).contains_key(k)),
        !config.bindings@.contains_key(k) && preset_map(chosen_preset(Some(config), cli_keymap)).contains_key(k)
            ==> resolved_map(Some(config), cli_keymap)[k] == preset_map(chosen_preset(Some(config), cli_keymap))[k],
        cli_keymap matches Some(p) ==> chosen_preset(Some(config), cli_keymap) == p,
{
}

/// What an entry handed out leaves remembered: after walking `keys`, each
/// of them that holds an entry is remembered with exactly that entry.
proof fn lemma_emit_remembers(entries: Map<Seq<char>, EntryView>, prev: Map<Seq<char>, EntryView>, keys: Seq<Seq<char>>)
    ensures
        forall|i: int|
            0 <= i < keys.len() && entries.contains_key(#[trigger] keys[i]) ==> emit_spec(entries, prev, keys).1.contains_key(
                keys[i],
            ) && emit_spec(entries, prev, keys).1[keys[i]] == entries[keys[i]],
    decreases keys.len(),
{
    if keys.len() > 0 {
        let init = keys.drop_last();
        lemma_emit_remembers(entries, prev, init);
        assert forall|i: int| 0 <= i < keys.len() && entries.contains_key(#[trigger] keys[i]) implies emit_spec(
            entries,
            prev,
            keys,
        ).1.contains_key(keys[i]) && emit_spec(entries, prev, keys).1[keys[i]] == entries[keys[i]] by {
            if i < keys.len() - 1 {
                assert(keys[i] == init[i]);
            }
        }
    }
}

/// Walking keys that are all remembered with their current entries hands
/// out nothing and remembers the same.
proof fn lemma_emit_quiet(entries: Map<Seq<char>, EntryView>, prev: Map<Seq<char>, EntryView>, keys: Seq<Seq<char>>)
    requires
        forall|i: int|
            0 <= i < keys.len() && entries.contains_key(#[trigger] keys[i]) ==> prev.contains_key(keys[i])
                && prev[keys[i]] == entries[keys[i]],
    ensures
        emit_spec(entries, prev, keys).0 == Seq::<EntryView>::empty(),
        emit_spec(entries, prev, keys).1 == prev,
    decreases keys.len(),
{
    if keys.len() > 0 {
        let init = keys.drop_last();
        assert forall|i: int| 0 <= i < init.len() && entries.contains_key(#[trigger] init[i]) implies prev.contains_key(
            init[i],
        ) && prev[init[i]] == entries[init[i]] by {
            assert(init[i] == keys[i]);
        }
        lemma_emit_quiet(entries, prev, init);
        assert(keys.last() == keys[keys.len() - 1]);
    }
}

/// Streaming hands out only what changed: once a rebuild's entries have
/// been handed out, handing out the same entries again gives nothing.
pub proof fn law_stream_only_changes(entries: Map<Seq<char>, EntryView>, prev: Map<Seq<char>, EntryView>, keys: Seq<Seq<char>>)
    ensures
        ({
            let p = emit_spec(entries, prev, keys).1;
            &&& emit_spec(entries, p, keys).0 == Seq::<EntryView>::empty()
            &&& emit_spec(entries, p, keys).1 == p
        }),
{
    lemma_emit_remembers(entries, prev, keys);
    lemma_emit_quiet(entries, emit_spec(entries, prev, keys).1, keys);
}

/// A message always takes at least one row of the error popup.
pub proof fn law_wrap_at_least_one_row(text: Seq<char>, width: nat)
    ensures
        wrap_count_spec(text, width) >= 1,
{
}

/// Suite jumps land on suite headers: the next one after the selection,
/// or the previous one before it, with no header skipped between.
pub proof fn law_suite_jumps_land_on_headers(sel: Option<usize>, vis: Seq<VisibleView>)
    requires
        vis.len() <= usize::MAX,
    ensures
        next_suite_spec(sel, vis) matches Some(j) ==> ({
            let start = match sel {
                Some(i) => i + 1,
                None => 0,
            };
            &&& start <= j < vis.len()
            &&& vis[j as int] is Suite
            &&& forall|k: int| start <= k < j ==> !(#[trigger] vis[k] is Suite)
        }),
        prev_suite_spec(sel, vis) matches Some(j) ==> ({
            let end = match sel {
                Some(i) => i as int,
                None => 0,
            };
            &&& 0 <= j < end
            &&& vis[j as int] is Suite
            &&& forall|k: int| j < k < end ==> !(#[trigger] vis[k] is Suite)
        }),
{
    match sel {
        Some(i) => {
            if exists|j: int| #[trigger] first_suite_from(vis, i + 1, j) {
                let c = choose|j: int| #[trigger] first_suite_from(vis, i + 1, j);
                assert(first_suite_from(vis, i + 1, c));
            }
            if exists|j: int| last_suite_before(vis, i as int, j) {
                let c = choose|j: int| last_suite_before(vis, i as int, j);
                assert(last_suite_before(vis, i as int, c));
            }
        },
        None => {
            if exists|j: int| first_suite_from(vis, 0, j) {
                let c = choose|j: int| first_suite_from(vis, 0, j);
                assert(first_suite_from(vis, 0, c));
            }
        },
    }
}

} // verus!
