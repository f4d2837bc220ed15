//! Applying qBittorrent's incremental sync data to the torrent list.
use vstd::prelude::*;
use crate::app_state::{clamped_selection, hash_position, lemma_hash_position_bounds, AppState, AppStateView};
use crate::bindings::opt_view;
use crate::models::TorrentView;
use crate::sort::{listed, torrent_views};
use crate::script::text_views;
use crate::text::text_equals;

verus! {

/// The fields of one torrent that a sync reports as changed. A reported
/// progress arrives as `complete`, the result of its `progress >= 1` test.
pub struct TorrentChange {
    pub hash: String,
    pub tags: Option<String>,
    pub state: Option<String>,
    pub complete: Option<bool>,
    pub completion_on: Option<i64>,
    /// Whether the change record was JSON `null`.
    pub is_null: bool,
}

/// The mathematical value of a [`TorrentChange`].
pub ghost struct ChangeView {
    pub hash: Seq<char>,
    pub tags: Option<Seq<char>>,
    pub state: Option<Seq<char>>,
    pub complete: Option<bool>,
    pub completion_on: Option<i64>,
    pub is_null: bool,
}

impl View for TorrentChange {
    type V = ChangeView;

    open spec fn view(&self) -> ChangeView {
        ChangeView {
            hash: self.hash@,
            tags: opt_view(self.tags),
            state: opt_view(self.state),
            complete: self.complete,
            completion_on: self.completion_on,
            is_null: self.is_null,
        }
    }
}

/// One sync answer: the next response id, whether it is a full update, the
/// changed torrents and the removed hashes.
pub struct SyncDelta {
    pub rid: u64,
    pub full_update: bool,
    pub torrents: Vec<TorrentChange>,
    pub torrents_removed: Vec<String>,
}

/// What the caller does after a sync was applied.
#[derive(Debug, Clone, Copy, PartialEq, Eq, Structural)]
pub enum SyncStep {
    /// The list is up to date.
    Done,
    /// The full torrent list has to be fetched and handed to `replace_torrents`.
    NeedFullRefresh,
}

/// The views of a sequence of changes.
pub open spec fn change_views(v: Seq<TorrentChange>) -> Seq<ChangeView> {
    v.map_values(|c: TorrentChange| c@)
}

/// A torrent with a change applied: reported fields replaced, and a
/// completion time of 0 or less read as none.
pub open spec fn changed(t: TorrentView, c: ChangeView) -> TorrentView {
    TorrentView {
        tags: match c.tags {
            Some(x) => x,
            None => t.tags,
        },
        state: match c.state {
            Some(x) => x,
            None => t.state,
        },
        complete: match c.complete {
            Some(x) => x,
            None => t.complete,
        },
        completion_on: match c.completion_on {
            Some(x) => if x > 0 { Some(x) } else { None },
            None => t.completion_on,
        },
        ..t
    }
}

/// A change sets each field it reports to the reported value (a completion
/// time of 0 or less read as none), keeps the fields it does not report,
/// and leaves every other field of the torrent alone.
pub proof fn law_change_sets_reported_fields(t: TorrentView, c: ChangeView)
    ensures
        c.complete is Some ==> changed(t, c).complete == c.complete->0,
        c.complete is None ==> changed(t, c).complete == t.complete,
        c.tags is Some ==> changed(t, c).tags == c.tags->0,
        c.tags is None ==> changed(t, c).tags == t.tags,
        c.state is Some ==> changed(t, c).state == c.state->0,
        c.state is None ==> changed(t, c).state == t.state,
        c.completion_on is Some && c.completion_on->0 > 0 ==> changed(t, c).completion_on == c.completion_on,
        c.completion_on is Some && c.completion_on->0 <= 0 ==> changed(t, c).completion_on is None,
        c.completion_on is None ==> changed(t, c).completion_on == t.completion_on,
        (TorrentView {
            tags: t.tags,
            state: t.state,
            complete: t.complete,
            completion_on: t.completion_on,
            ..changed(t, c)
        }) == t,
{
}

/// The list after applying changes in order; `true` where a non-null change
/// named an unknown torrent, which stops the application there.
pub open spec fn apply_changes(ts: Seq<TorrentView>, cs: Seq<ChangeView>) -> (Seq<TorrentView>, bool)
    decreases cs.len(),
{
    if cs.len() == 0 {
        (ts, false)
    } else {
        let c = cs[0];
        match hash_position(ts, c.hash) {
            Some(i) => apply_changes(ts.update(i, changed(ts[i], c)), cs.drop_first()),
            None => if c.is_null { apply_changes(ts, cs.drop_first()) } else { (ts, true) },
        }
    }
}

/// In a sync, a change that names a listed torrent reaches it: the list
/// keeps its length, the named torrent takes the reported completion, tags
/// and state, and every other torrent stays as it was.
pub proof fn law_sync_change_reaches_its_torrent(ts: Seq<TorrentView>, c: ChangeView)
    requires
        hash_position(ts, c.hash) is Some,
    ensures
        ({
            let i = hash_position(ts, c.hash)->0;
            let r = apply_changes(ts, seq![c]);
            &&& !r.1
            &&& r.0.len() == ts.len()
            &&& 0 <= i < ts.len()
            &&& r.0[i].hash == c.hash
            &&& c.complete is Some ==> r.0[i].complete == c.complete->0
            &&& c.tags is Some ==> r.0[i].tags == c.tags->0
            &&& c.state is Some ==> r.0[i].state == c.state->0
            &&& forall|j: int| 0 <= j < ts.len() && j != i ==> #[trigger] r.0[j] == ts[j]
        }),
{
    lemma_hash_position_bounds(ts, c.hash);
    let i = hash_position(ts, c.hash)->0;
    assert(seq![c][0] == c);
    assert(seq![c].drop_first() =~= Seq::<ChangeView>::empty());
    let u = ts.update(i, changed(ts[i], c));
    assert(apply_changes(ts, seq![c]) == apply_changes(u, seq![c].drop_first()));
    assert(apply_changes(u, Seq::<ChangeView>::empty()) == (u, false));
}

/// The list without the torrents whose hash was removed.
pub open spec fn without_removed(ts: Seq<TorrentView>, removed: Seq<Seq<char>>) -> Seq<TorrentView>
    decreases ts.len(),
{
    if ts.len() == 0 {
        Seq::empty()
    } else {
        let p = without_removed(ts.drop_last(), removed);
        if removed.contains(ts.last().hash) { p } else { p.push(ts.last()) }
    }
}

impl AppState {
    /// After a sync that failed: the next sync starts over from the
    /// beginning, and the full list has to be fetched now.
    pub fn sync_failed(&mut self) -> (r: SyncStep)
        ensures
            final(self)@ == (AppStateView { sync_rid: 0, ..old(self)@ }),
            r == SyncStep::NeedFullRefresh,
    {
        self.sync_rid = 0;
        SyncStep::NeedFullRefresh
    }

    /// Applies a sync answer. A full update, or a change to a torrent not in
    /// the list, asks for a full refresh; otherwise removals and changes are
    /// applied and the selection kept on a shown torrent.
    pub fn apply_sync(&mut self, delta: SyncDelta) -> (r: SyncStep)
        ensures
            ({
                let o = old(self)@;
                if delta.full_update {
                    r == SyncStep::NeedFullRefresh && final(self)@ == (AppStateView { sync_rid: delta.rid, ..o })
                } else {
                    let t1 = without_removed(o.torrents, text_views(delta.torrents_removed@));
                    let applied = apply_changes(t1, change_views(delta.torrents@));
                    if applied.1 {
                        r == SyncStep::NeedFullRefresh
                            && final(self)@ == (AppStateView { sync_rid: delta.rid, torrents: applied.0, ..o })
                    } else {
                        r == SyncStep::Done && final(self)@ == (AppStateView {
                            sync_rid: delta.rid,
                            torrents: applied.0,
                            selected_index: clamped_selection(o.selected_index, listed(applied.0, o.filter).len()),
                            ..o
                        })
                    }
                }
            }),
    {
        self.sync_rid = delta.rid;
        if delta.full_update {
            return SyncStep::NeedFullRefresh;
        }
        if delta.torrents_removed.len() > 0 {
            self.remove_torrents(&delta.torrents_removed);
        } else {
            proof {
                lemma_without_nothing(self@.torrents, text_views(delta.torrents_removed@));
            }
        }
        let ghost t1 = self@.torrents;
        let ghost cs = change_views(delta.torrents@);
        let mut k: usize = 0;
        assert(cs.skip(0) =~= cs);
        while k < delta.torrents.len()
            invariant
                k <= delta.torrents.len(),
                cs == change_views(delta.torrents@),
                !delta.full_update,
                t1 == without_removed(old(self)@.torrents, text_views(delta.torrents_removed@)),
                apply_changes(t1, cs) == apply_changes(self@.torrents, cs.skip(k as int)),
                self@ == (AppStateView { torrents: self@.torrents, sync_rid: delta.rid, ..old(self)@ }),
            decreases delta.torrents.len() - k,
        {
            let change = &delta.torrents[k];
            assert(cs.skip(k as int)[0] == change@);
            assert(cs.skip(k as int).drop_first() =~= cs.skip(k + 1));
            match self.position_of(change.hash.as_str()) {
                Some(i) => {
                    self.apply_change(i, change);
                },
                None => {
                    if !change.is_null {
                        return SyncStep::NeedFullRefresh;
                    }
                },
            }
            k = k + 1;
        }
        assert(cs.skip(delta.torrents.len() as int) =~= Seq::<ChangeView>::empty());
        self.clamp_selection();
        SyncStep::Done
    }

    /// Where the first torrent with `hash` stands.
    pub fn position_of(&self, hash: &str) -> (r: Option<usize>)
        ensures
            match r {
                Some(i) => i < self.torrents.len() && hash_position(self@.torrents, hash@) == Some(i as int),
                None => hash_position(self@.torrents, hash@) is None,
            },
    {
        let mut i: usize = 0;
        while i < self.torrents.len()
            invariant
                i <= self.torrents.len(),
                hash_position(self@.torrents.take(i as int), hash@) is None,
            decreases self.torrents.len() - i,
        {
            assert(self@.torrents.take(i + 1).drop_last() =~= self@.torrents.take(i as int));
            if text_equals(self.torrents[i].hash.as_str(), hash) {
                proof {
                    crate::app_state::lemma_hash_position_prefix(self@.torrents, hash@, i as int);
                }
                return Some(i);
            }
            i = i + 1;
        }
        assert(self@.torrents.take(self.torrents.len() as int) =~= self@.torrents);
        None
    }

    fn apply_change(&mut self, i: usize, c: &TorrentChange)
        requires
            i < old(self).torrents.len(),
        ensures
            final(self)@ == (AppStateView {
                torrents: old(self)@.torrents.update(i as int, changed(old(self)@.torrents[i as int], c@)),
                ..old(self)@
            }),
    {
        let mut t = self.torrents[i].duplicate();
        match &c.tags {
            Some(x) => { t.tags = x.clone(); },
            None => {},
        }
        match &c.state {
            Some(x) => { t.state = x.clone(); },
            None => {},
        }
        match c.complete {
            Some(x) => { t.complete = x; },
            None => {},
        }
        match c.completion_on {
            Some(x) => { t.completion_on = if x > 0 { Some(x) } else { None }; },
            None => {},
        }
        let ghost before = self@;
        let ghost tv = t@;
        self.torrents.set(i, t);
        proof {
            assert(self@.torrents =~= before.torrents.update(i as int, tv));
        }
    }

    /// Drops the torrents whose hash is in `removed`.
    pub fn remove_torrents(&mut self, removed: &Vec<String>)
        ensures
            final(self)@ == (AppStateView {
                torrents: without_removed(old(self)@.torrents, text_views(removed@)),
                ..old(self)@
            }),
    {
        let ghost rs = text_views(removed@);
        let ghost ts = self@.torrents;
        let mut kept: Vec<crate::models::Torrent> = Vec::new();
        let mut i: usize = 0;
        assert(ts.take(0) =~= Seq::<TorrentView>::empty());
        assert(torrent_views(kept@) =~= without_removed(ts.take(0), rs));
        while i < self.torrents.len()
            invariant
                self@ == old(self)@,
                ts == self@.torrents,
                rs == text_views(removed@),
                i <= self.torrents.len(),
                torrent_views(kept@) == without_removed(ts.take(i as int), rs),
            decreases self.torrents.len() - i,
        {
            assert(ts.take(i + 1).drop_last() =~= ts.take(i as int));
            assert(ts.take(i + 1).last() == self@.torrents[i as int]);
            let th = &self.torrents[i].hash;
            let mut gone = false;
            let mut m: usize = 0;
            while m < removed.len()
                invariant
                    m <= removed.len(),
                    rs == text_views(removed@),
                    i < ts.len(),
                    th@ == ts[i as int].hash,
                    gone <==> exists|x: int| 0 <= x < m && rs[x] == th@,
                decreases removed.len() - m,
            {
                assert(rs[m as int] == removed@[m as int]@);
                if text_equals(removed[m].as_str(), th.as_str()) {
                    gone = true;
                }
                m = m + 1;
            }
            assert(gone <==> rs.contains(self@.torrents[i as int].hash));
            if !gone {
                let ghost before = kept@;
                kept.push(self.torrents[i].duplicate());
                assert(torrent_views(kept@) =~= torrent_views(before).push(self@.torrents[i as int]));
            }
            i = i + 1;
        }
        assert(ts.take(self.torrents.len() as int) =~= ts);
        self.torrents = kept;
    }
}

proof fn lemma_without_nothing(ts: Seq<TorrentView>, removed: Seq<Seq<char>>)
    requires
        removed.len() == 0,
    ensures
        without_removed(ts, removed) == ts,
    decreases ts.len(),
{
    if ts.len() > 0 {
        lemma_without_nothing(ts.drop_last(), removed);
        assert(ts.drop_last().push(ts.last()) =~= ts);
    } else {
        assert(ts =~= Seq::<TorrentView>::empty());
    }
}

/// After a sync, no torrent whose hash was reported removed is left, and
/// every torrent left was in the list before.
pub proof fn law_removed_torrents_are_gone(ts: Seq<TorrentView>, removed: Seq<Seq<char>>)
    ensures
        forall|i: int|
            0 <= i < without_removed(ts, removed).len() ==> !removed.contains(
                #[trigger] without_removed(ts, removed)[i].hash,
            ) && ts.contains(without_removed(ts, removed)[i]),
    decreases ts.len(),
{
    if ts.len() > 0 {
        let prev = ts.drop_last();
        law_removed_torrents_are_gone(prev, removed);
        let w = without_removed(ts, removed);
        let p = without_removed(prev, removed);
        assert forall|i: int| 0 <= i < w.len() implies !removed.contains(#[trigger] w[i].hash) && ts.contains(w[i]) by {
            if i < p.len() {
                assert(w[i] == p[i]);
                assert(!removed.contains(p[i].hash));
                assert(prev.contains(p[i]));
                let j = choose|j: int| 0 <= j < prev.len() && prev[j] == p[i];
                assert(ts[j] == prev[j]);
                assert(ts.contains(w[i]));
            } else {
                assert(w[i] == ts.last());
                assert(ts[ts.len() - 1] == ts.last());
            }
        }
    }
}

} // verus!
