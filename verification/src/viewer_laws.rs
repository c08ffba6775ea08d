//! What key names, stepping left, the failure flag of a streaming run and
//! the selection after a rebuild promise, stated without the definitions
//! the operations' contracts use.
use vstd::prelude::*;

use crate::app::{AppModel, EntryView, Status, VisibleView, visible_spec};
use crate::keymap::{combo_spec, key_code_spec, KeyCode, KeyCombo, CONTROL, NO_MODIFIERS};
use crate::list_view::{left_spec, parent_row, row_depth, DwimOutcome};
use crate::screen::{combo_label_spec, key_label_spec};
use crate::stream::{any_failed, emit_spec};
use crate::ui::{anchor_of, is_first_match, matches_anchor, reselect_spec};

verus! {

/// A key the help can name: not the catch-all, and, for a character, a
/// printable ASCII one other than the space (which is named `space`).
pub open spec fn nameable(code: KeyCode) -> bool {
    &&& code != KeyCode::Other
    &&& code != KeyCode::Char(' ')
    &&& code matches KeyCode::Char(c) ==> (c as u32) < 128
}

/// The name of a key parses back to that key.
proof fn lemma_key_name_parses(code: KeyCode)
    requires
        nameable(code),
    ensures
        key_code_spec(key_label_spec(code)) == Some(code),
{
    reveal_strlit("esc");
    reveal_strlit("enter");
    reveal_strlit("tab");
    reveal_strlit("backspace");
    reveal_strlit("delete");
    reveal_strlit("up");
    reveal_strlit("down");
    reveal_strlit("left");
    reveal_strlit("right");
    reveal_strlit("home");
    reveal_strlit("end");
    reveal_strlit("pageup");
    reveal_strlit("pagedown");
    match code {
        KeyCode::Char(c) => {
            assert(key_label_spec(code) =~= seq![c]);
        },
        KeyCode::Esc => assert("esc"@ =~= seq!['e', 's', 'c']),
        KeyCode::Enter => assert("enter"@ =~= seq!['e', 'n', 't', 'e', 'r']),
        KeyCode::Tab => assert("tab"@ =~= seq!['t', 'a', 'b']),
        KeyCode::Backspace => assert("backspace"@ =~= seq!['b', 'a', 'c', 'k', 's', 'p', 'a', 'c', 'e']),
        KeyCode::Delete => assert("delete"@ =~= seq!['d', 'e', 'l', 'e', 't', 'e']),
        KeyCode::Up => assert("up"@ =~= seq!['u', 'p']),
        KeyCode::Down => assert("down"@ =~= seq!['d', 'o', 'w', 'n']),
        KeyCode::Left => assert("left"@ =~= seq!['l', 'e', 'f', 't']),
        KeyCode::Right => assert("right"@ =~= seq!['r', 'i', 'g', 'h', 't']),
        KeyCode::Home => assert("home"@ =~= seq!['h', 'o', 'm', 'e']),
        KeyCode::End => assert("end"@ =~= seq!['e', 'n', 'd']),
        KeyCode::PageUp => assert("pageup"@ =~= seq!['p', 'a', 'g', 'e', 'u', 'p']),
        KeyCode::PageDown => assert("pagedown"@ =~= seq!['p', 'a', 'g', 'e', 'd', 'o', 'w', 'n']),
        KeyCode::Other => {},
    }
}

/// Every key the help names parses back, by that name, to the same key,
/// with `ctrl+` before the name or without: `pageup` gives Page Up,
/// `pagedown` Page Down, a character gives itself. So two different keys
/// never go by the same name.
pub proof fn law_key_names_parse_back(k: KeyCombo, other: KeyCode)
    requires
        k.modifiers == NO_MODIFIERS || k.modifiers == CONTROL,
        nameable(k.code),
        nameable(other),
    ensures
        combo_spec(combo_label_spec(k)) == Some(k),
        key_code_spec(key_label_spec(k.code)) == Some(k.code),
        other != k.code ==> key_code_spec(key_label_spec(other)) != key_code_spec(key_label_spec(k.code)),
{
    lemma_key_name_parses(k.code);
    lemma_key_name_parses(other);
    reveal_strlit("ctrl+");
    let name = key_label_spec(k.code);
    let s = combo_label_spec(k);
    if k.modifiers == CONTROL {
        assert(s.take(5) =~= seq!['c', 't', 'r', 'l', '+']);
        assert(s.skip(5) =~= name);
    } else {
        assert(s =~= name);
        if s.len() >= 5 {
            assert(s.take(5)[4] == s[4]);
        }
    }
}

/// Left on a row steps up to the row it hangs under whenever it moves:
/// a row above it that is less indented, with every row between them
/// indented at least as deep as it is. Moving leaves the report as it
/// was.
pub proof fn law_left_steps_to_parent(i: usize, m: AppModel)
    requires
        left_spec(Some(i), m).2 == DwimOutcome::Moved,
    ensures
        ({
            let vis = visible_spec(m);
            let r = left_spec(Some(i), m);
            &&& r.1 == m
            &&& i < vis.len()
            &&& r.0 matches Some(j) && j < i && row_depth(vis[j as int]) < row_depth(vis[i as int])
                && forall|k: int| j < k < i ==> row_depth(#[trigger] vis[k]) >= row_depth(vis[i as int])
        }),
{
    let vis = visible_spec(m);
    if i < vis.len() {
        if exists|j: int| parent_row(vis, i as int, j) {
            let j = choose|j: int| parent_row(vis, i as int, j);
            assert(parent_row(vis, i as int, j));
        }
    }
}

/// Each entry handed out has a status some entry of the report has.
proof fn lemma_emit_statuses(entries: Map<Seq<char>, EntryView>, prev: Map<Seq<char>, EntryView>, keys: Seq<Seq<char>>, st: Status)
    requires
        forall|k: Seq<char>| #[trigger] entries.contains_key(k) ==> entries[k].status != st,
    ensures
        forall|i: int| 0 <= i < emit_spec(entries, prev, keys).0.len() ==> (#[trigger] emit_spec(entries, prev, keys).0[i]).status != st,
    decreases keys.len(),
{
    if keys.len() > 0 {
        lemma_emit_statuses(entries, prev, keys.drop_last(), st);
    }
}

/// A streaming run counts as failed only through a failed entry: the
/// entries handed out fail when one of them has status Fail, and when no
/// entry of the report failed, none handed out did, so passed and skipped
/// checks leave the run's failure flag as it was.
pub proof fn law_stream_fails_only_on_failures(entries: Map<Seq<char>, EntryView>, prev: Map<Seq<char>, EntryView>, keys: Seq<Seq<char>>)
    ensures
        ({
            let out = emit_spec(entries, prev, keys).0;
            &&& any_failed(out) <==> exists|i: int| 0 <= i < out.len() && #[trigger] out[i].status == Status::Fail
            &&& (forall|k: Seq<char>| #[trigger] entries.contains_key(k) ==> entries[k].status != Status::Fail) ==> !any_failed(out)
        }),
{
    if forall|k: Seq<char>| #[trigger] entries.contains_key(k) ==> entries[k].status != Status::Fail {
        lemma_emit_statuses(entries, prev, keys, Status::Fail);
    }
}

/// When the row the selection was on is gone after a rebuild and rows
/// remain, the selection keeps its position, or goes to the last row if
/// the list got shorter than that.
pub proof fn law_reselect_keeps_position(i: usize, before: Seq<VisibleView>, after: Seq<VisibleView>)
    requires
        i < before.len(),
        0 < after.len() <= usize::MAX,
        forall|j: int| 0 <= j < after.len() ==> !matches_anchor(#[trigger] after[j], anchor_of(before[i as int])),
    ensures
        reselect_spec(Some(i), before, after) == Some(
            if i < after.len() {
                i
            } else {
                (after.len() - 1) as usize
            },
        ),
{
    let a = anchor_of(before[i as int]);
    assert forall|j: int| !is_first_match(after, a, j) by {
        if is_first_match(after, a, j) {
            assert(!matches_anchor(after[j], a));
        }
    }
}

} // verus!
