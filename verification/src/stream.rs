//! Streaming mode: instead of drawing, each finished rebuild hands out the
//! entries that changed since they were last handed out, and the run
//! remembers whether any of them failed.
use vstd::prelude::*;

use crate::app::{all_keys_spec, empty_app_model, prune_model, upsert_model, App, AppModel, CheckEntry, EntryView, Status};
use crate::table::Table;

verus! {

/// Walking `keys` in order: the entries handed out, and what is
/// remembered afterwards. An entry goes out when its key was never handed
/// out or what was handed out under it differs.
pub open spec fn emit_spec(entries: Map<Seq<char>, EntryView>, prev: Map<Seq<char>, EntryView>, keys: Seq<Seq<char>>) -> (Seq<EntryView>, Map<Seq<char>, EntryView>)
    decreases keys.len(),
{
    if keys.len() == 0 {
        (Seq::empty(), prev)
    } else {
        let (out, p) = emit_spec(entries, prev, keys.drop_last());
        let k = keys.last();
        if entries.contains_key(k) && (!p.contains_key(k) || p[k] != entries[k]) {
            (out.push(entries[k]), p.insert(k, entries[k]))
        } else {
            (out, p)
        }
    }
}

/// Whether any of `out` failed.
pub open spec fn any_failed(out: Seq<EntryView>) -> bool {
    exists|i: int| 0 <= i < out.len() && #[trigger] out[i].status == Status::Fail
}

/// The report after a rebuild is done: pruned, then a new generation.
pub open spec fn stream_rebuilt(m: AppModel) -> AppModel {
    AppModel { generation: (m.generation + 1) as u64, ..prune_model(m) }
}

/// State of a streaming run.
pub struct StreamState {
    pub app: App,
    /// What was last handed out under each key.
    pub previous: Table<CheckEntry>,
    /// Whether a failing entry was handed out.
    pub had_failure: bool,
}

impl StreamState {
    pub fn new() -> (r: Self)
        ensures
            r.app@ == empty_app_model(),
            r.previous@ == Map::<Seq<char>, EntryView>::empty(),
            !r.had_failure,
    {
        StreamState { app: App::new(), previous: Table::new(), had_failure: false }
    }

    /// An entry arrived from the running rebuild.
    pub fn on_entry(&mut self, entry: CheckEntry)
        ensures
            final(self).app@ == upsert_model(old(self).app@, entry),
            final(self).previous@ == old(self).previous@,
            final(self).had_failure == old(self).had_failure,
    {
        self.app.upsert(entry);
    }

    /// A reload was asked for: a new generation starts.
    pub fn on_reload(&mut self)
        requires
            old(self).app@.generation < u64::MAX,
        ensures
            final(self).app@ == (AppModel { generation: (old(self).app@.generation + 1) as u64, ..old(self).app@ }),
            final(self).previous@ == old(self).previous@,
            final(self).had_failure == old(self).had_failure,
    {
        self.app.bump_generation();
    }

    /// The rebuild finished: stale entries are pruned, and the entries
    /// that changed since they were last handed out come back, in listing
    /// order, to be written out. A new generation starts.
    pub fn on_done(&mut self) -> (r: Vec<CheckEntry>)
        requires
            old(self).app@.generation < u64::MAX,
        ensures
            final(self).app@ == stream_rebuilt(old(self).app@),
            ({
                let m = prune_model(old(self).app@);
                let (out, p) = emit_spec(m.entries, old(self).previous@, all_keys_spec(m));
                &&& r.deep_view() == out
                &&& final(self).previous@ == p
                &&& final(self).had_failure == (old(self).had_failure || any_failed(out))
                &&& final(self).had_failure == (old(self).had_failure || exists|i: int|
                    0 <= i < out.len() && #[trigger] out[i].status == Status::Fail)
            }),
    {
        self.app.prune();
        let ghost m = self.app@;
        let keys = self.app.all_keys();
        let ghost kv = keys.deep_view();
        let ghost prev0 = self.previous@;
        let ghost fail0 = self.had_failure;
        let mut out: Vec<CheckEntry> = Vec::new();
        let n = keys.len();
        let mut i: usize = 0;
        while i < n
            invariant
                n == kv.len(),
                kv == keys.deep_view(),
                kv == all_keys_spec(m),
                m == self.app@,
                m.generation < u64::MAX,
                i <= n,
                out.deep_view() == emit_spec(m.entries, prev0, kv.take(i as int)).0,
                self.previous@ == emit_spec(m.entries, prev0, kv.take(i as int)).1,
                self.had_failure == (fail0 || any_failed(out.deep_view())),
            decreases n - i,
        {
            proof {
                let t = kv.take(i + 1);
                assert(t.drop_last() =~= kv.take(i as int));
                assert(t.last() == kv[i as int]);
            }
            let ghost before = out.deep_view();
            match self.app.entry(keys[i].as_str()) {
                Some(e) => {
                    let changed = match self.previous.get(keys[i].as_str()) {
                        Some(p) => !p.same_as(e),
                        None => true,
                    };
                    if changed {
                        let c = e.clone();
                        let fail = c.status == Status::Fail;
                        out.push(c);
                        assert(out.deep_view() =~= before.push(e@));
                        assert(out.deep_view()[before.len() as int] == e@);
                        if fail {
                            self.had_failure = true;
                            assert(out.deep_view()[before.len() as int].status == Status::Fail);
                        }
                        proof {
                            if any_failed(out.deep_view()) && !fail {
                                let j = choose|j: int| 0 <= j < out.deep_view().len() && #[trigger] out.deep_view()[j].status == Status::Fail;
                                assert(j < before.len());
                                assert(before[j].status == Status::Fail);
                            }
                            if any_failed(before) {
                                let j = choose|j: int| 0 <= j < before.len() && #[trigger] before[j].status == Status::Fail;
                                assert(out.deep_view()[j].status == Status::Fail);
                            }
                        }
                        self.previous.insert(keys[i].clone(), e.clone());
                    }
                },
                None => {},
            }
            i = i + 1;
        }
        assert(kv.take(n as int) =~= kv);
        self.app.bump_generation();
        out
    }
}

} // verus!
