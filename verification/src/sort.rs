//! Sorting torrents: a stable sort by name (case-insensitive), by added
//! time or by completion time, ascending or descending, and the completed
//! and listed selections of a torrent list.
use vstd::prelude::*;
use crate::bindings::{lowercase_text, to_lowercase};
use crate::models::{
    filter_admits, state_of_tags, ScriptStateFilter, SortConfig, SortDirection, SortField,
    Torrent, TorrentView,
};
use crate::text::chars_of;
use std::cmp::Ordering;

verus! {

/// The views of a sequence of torrents.
pub open spec fn torrent_views(v: Seq<Torrent>) -> Seq<TorrentView> {
    v.map_values(|t: Torrent| t@)
}

/// Three-way lexicographic order of two texts by code point (the order in
/// which `String`'s `Ord` puts them, UTF-8 bytes following code points):
/// -1, 0 or 1.
pub open spec fn lex_order(a: Seq<char>, b: Seq<char>) -> int
    decreases a.len(),
{
    if a.len() == 0 {
        if b.len() == 0 { 0 } else { -1 }
    } else if b.len() == 0 {
        1
    } else if (a[0] as int) < (b[0] as int) {
        -1
    } else if (a[0] as int) > (b[0] as int) {
        1
    } else {
        lex_order(a.drop_first(), b.drop_first())
    }
}

/// Three-way order of two integers.
pub open spec fn int_order(a: int, b: int) -> int {
    if a < b { -1 } else if a > b { 1 } else { 0 }
}

/// The completion time a torrent is sorted by (0 where it has none).
pub open spec fn completion_key(t: TorrentView) -> int {
    match t.completion_on {
        Some(c) => c as int,
        None => 0,
    }
}

/// How two torrents compare on a field, ascending.
pub open spec fn field_order(field: SortField, a: TorrentView, b: TorrentView) -> int {
    match field {
        SortField::Name => lex_order(lowercase_text(a.name), lowercase_text(b.name)),
        SortField::AddedAt => int_order(a.added_on as int, b.added_on as int),
        SortField::CompletedAt => int_order(completion_key(a), completion_key(b)),
    }
}

/// How two torrents compare under a sort configuration.
pub open spec fn config_order(cfg: SortConfig, a: TorrentView, b: TorrentView) -> int {
    match cfg.direction {
        SortDirection::Asc => field_order(cfg.field, a, b),
        SortDirection::Desc => -field_order(cfg.field, a, b),
    }
}

/// Whether the torrent at index `i` of `s` comes before the one at `j` in a
/// stable sort: it orders first, or they tie and it stood first.
pub open spec fn goes_before(cfg: SortConfig, s: Seq<TorrentView>, i: int, j: int) -> bool {
    config_order(cfg, s[i], s[j]) < 0 || (config_order(cfg, s[i], s[j]) == 0 && i < j)
}

/// Whether `p` lists each index below `n` exactly once.
pub open spec fn is_permutation(p: Seq<int>, n: nat) -> bool {
    &&& p.len() == n
    &&& forall|i: int| 0 <= i < n ==> 0 <= #[trigger] p[i] < n
    &&& forall|i: int, j: int| 0 <= i < j < n ==> p[i] != p[j]
}

/// `p` sorts `old` into `new` stably under `cfg`.
pub open spec fn sorts_by(cfg: SortConfig, old: Seq<TorrentView>, new: Seq<TorrentView>, p: Seq<int>) -> bool {
    &&& is_permutation(p, old.len())
    &&& new.len() == old.len()
    &&& forall|i: int| 0 <= i < new.len() ==> #[trigger] new[i] == old[p[i]]
    &&& forall|i: int, j: int|
        0 <= i < j < new.len() ==> goes_before(cfg, old, #[trigger] p[i], #[trigger] p[j])
}

/// Whether `new` is `old` stably sorted under `cfg`: a rearrangement of it
/// in which every element comes before those it goes before.
pub open spec fn stably_sorted(cfg: SortConfig, old: Seq<TorrentView>, new: Seq<TorrentView>) -> bool {
    exists|p: Seq<int>| sorts_by(cfg, old, new, p)
}

// ---- order lemmas ----

proof fn lemma_lex_antisymmetric(a: Seq<char>, b: Seq<char>)
    ensures
        lex_order(a, b) == -lex_order(b, a),
        -1 <= lex_order(a, b) <= 1,
    decreases a.len(),
{
    if a.len() > 0 && b.len() > 0 && a[0] == b[0] {
        lemma_lex_antisymmetric(a.drop_first(), b.drop_first());
    }
}

proof fn lemma_lex_zero(a: Seq<char>, b: Seq<char>)
    ensures
        lex_order(a, b) == 0 <==> a == b,
    decreases a.len(),
{
    if a.len() > 0 && b.len() > 0 && a[0] == b[0] {
        lemma_lex_zero(a.drop_first(), b.drop_first());
        if a.drop_first() == b.drop_first() {
            assert(a =~= seq![a[0]] + a.drop_first());
            assert(b =~= seq![b[0]] + b.drop_first());
        }
        if a == b {
            assert(a.drop_first() == b.drop_first());
        }
    } else if a.len() == 0 && b.len() == 0 {
        assert(a =~= b);
    } else if a.len() > 0 && b.len() > 0 {
        assert(a[0] as int != b[0] as int);
        if a == b {
            assert(a[0] == b[0]);
        }
    }
}

proof fn lemma_lex_transitive(a: Seq<char>, b: Seq<char>, c: Seq<char>)
    requires
        lex_order(a, b) < 0,
        lex_order(b, c) < 0,
    ensures
        lex_order(a, c) < 0,
    decreases a.len(),
{
    if a.len() > 0 && b.len() > 0 && c.len() > 0 {
        if a[0] == b[0] && b[0] == c[0] {
            lemma_lex_transitive(a.drop_first(), b.drop_first(), c.drop_first());
        }
    }
}

proof fn lemma_field_order_props(f: SortField, a: TorrentView, b: TorrentView, c: TorrentView)
    ensures
        field_order(f, a, b) == -field_order(f, b, a),
        -1 <= field_order(f, a, b) <= 1,
        field_order(f, a, b) < 0 && field_order(f, b, c) < 0 ==> field_order(f, a, c) < 0,
        field_order(f, a, b) == 0 ==> field_order(f, a, c) == field_order(f, b, c),
        field_order(f, b, c) == 0 ==> field_order(f, a, b) == field_order(f, a, c),
{
    match f {
        SortField::Name => {
            let x = lowercase_text(a.name);
            let y = lowercase_text(b.name);
            let z = lowercase_text(c.name);
            lemma_lex_antisymmetric(x, y);
            lemma_lex_zero(x, y);
            lemma_lex_zero(y, z);
            if lex_order(x, y) < 0 && lex_order(y, z) < 0 {
                lemma_lex_transitive(x, y, z);
            }
        },
        _ => {},
    }
}

/// Sorting descending compares two torrents as sorting ascending compares
/// them the other way round, whatever the field.
pub proof fn law_descending_is_swapped_ascending(field: SortField, a: TorrentView, b: TorrentView)
    ensures
        config_order(SortConfig { field, direction: SortDirection::Desc }, a, b) == config_order(
            SortConfig { field, direction: SortDirection::Asc },
            b,
            a,
        ),
{
    lemma_field_order_props(field, a, b, a);
}

proof fn lemma_goes_before_total(cfg: SortConfig, s: Seq<TorrentView>, i: int, j: int)
    requires
        i != j,
    ensures
        goes_before(cfg, s, i, j) <==> !goes_before(cfg, s, j, i),
{
    lemma_field_order_props(cfg.field, s[i], s[j], s[j]);
}

proof fn lemma_goes_before_transitive(cfg: SortConfig, s: Seq<TorrentView>, i: int, j: int, k: int)
    requires
        goes_before(cfg, s, i, j),
        goes_before(cfg, s, j, k),
    ensures
        goes_before(cfg, s, i, k),
{
    lemma_field_order_props(cfg.field, s[i], s[j], s[k]);
    lemma_field_order_props(cfg.field, s[k], s[j], s[i]);
    lemma_field_order_props(cfg.field, s[i], s[k], s[j]);
}

// ---- executable comparison ----

/// `lex_order` of two character vectors.
pub fn lex_compare(a: &Vec<char>, b: &Vec<char>) -> (r: i8)
    ensures
        r as int == lex_order(a@, b@),
{
    let mut i: usize = 0;
    assert(a@.skip(0) =~= a@);
    assert(b@.skip(0) =~= b@);
    while i < a.len() && i < b.len() && a[i] == b[i]
        invariant
            i <= a.len(),
            i <= b.len(),
            lex_order(a@, b@) == lex_order(a@.skip(i as int), b@.skip(i as int)),
        decreases a.len() - i,
    {
        assert(a@.skip(i as int).drop_first() =~= a@.skip(i + 1));
        assert(b@.skip(i as int).drop_first() =~= b@.skip(i + 1));
        i = i + 1;
    }
    if i == a.len() {
        if i == b.len() { 0 } else { -1 }
    } else if i == b.len() {
        1
    } else if a[i] < b[i] {
        -1
    } else {
        assert(a[i as int] != b[i as int]);
        1
    }
}

/// The sort keys of a list of torrents, computed once.
struct SortKeys {
    names: Vec<Vec<char>>,
    added: Vec<u64>,
    completed: Vec<i64>,
}

impl SortKeys {
    spec fn matches(&self, s: Seq<TorrentView>) -> bool {
        &&& self.names.len() == s.len()
        &&& self.added.len() == s.len()
        &&& self.completed.len() == s.len()
        &&& forall|i: int| 0 <= i < s.len() ==> #[trigger] self.names@[i]@ == lowercase_text(s[i].name)
        &&& forall|i: int| 0 <= i < s.len() ==> #[trigger] self.added@[i] == s[i].added_on
        &&& forall|i: int| 0 <= i < s.len() ==> #[trigger] self.completed@[i] as int == completion_key(s[i])
    }

    fn of(v: &Vec<Torrent>) -> (r: SortKeys)
        ensures
            r.matches(torrent_views(v@)),
    {
        let mut names: Vec<Vec<char>> = Vec::new();
        let mut added: Vec<u64> = Vec::new();
        let mut completed: Vec<i64> = Vec::new();
        let mut i: usize = 0;
        while i < v.len()
            invariant
                i <= v.len(),
                names.len() == i,
                added.len() == i,
                completed.len() == i,
                forall|k: int| 0 <= k < i ==> #[trigger] names@[k]@ == lowercase_text(v@[k]@.name),
                forall|k: int| 0 <= k < i ==> #[trigger] added@[k] == v@[k]@.added_on,
                forall|k: int| 0 <= k < i ==> #[trigger] completed@[k] as int == completion_key(v@[k]@),
            decreases v.len() - i,
        {
            let t = &v[i];
            let lower = to_lowercase(t.name.as_str());
            names.push(chars_of(lower.as_str()));
            added.push(t.added_on);
            let c = match t.completion_on {
                Some(c) => c,
                None => 0,
            };
            completed.push(c);
            i = i + 1;
        }
        SortKeys { names, added, completed }
    }

    /// Whether index `i` goes before index `j`.
    fn before(&self, cfg: SortConfig, i: usize, j: usize, Ghost(s): Ghost<Seq<TorrentView>>) -> (r: bool)
        requires
            self.matches(s),
            i < s.len(),
            j < s.len(),
        ensures
            r == goes_before(cfg, s, i as int, j as int),
    {
        let o: i8 = match cfg.field {
            SortField::Name => lex_compare(&self.names[i], &self.names[j]),
            SortField::AddedAt => {
                if self.added[i] < self.added[j] { -1 } else if self.added[i] > self.added[j] { 1 } else { 0 }
            },
            SortField::CompletedAt => {
                if self.completed[i] < self.completed[j] {
                    -1
                } else if self.completed[i] > self.completed[j] {
                    1
                } else {
                    0
                }
            },
        };
        proof {
            lemma_lex_antisymmetric(self.names@[i as int]@, self.names@[j as int]@);
        }
        let o2: i8 = match cfg.direction {
            SortDirection::Asc => o,
            SortDirection::Desc => -o,
        };
        o2 < 0 || (o2 == 0 && i < j)
    }
}

/// A comparator taken from a sort configuration. It holds its own copy of
/// the configuration, so later changes to the state do not reach it.
#[derive(Debug, Clone, Copy)]
pub struct SortKey {
    pub config: SortConfig,
}

impl SortKey {
    /// Compares two torrents on the configured field (names without case,
    /// a missing completion time as 0), ascending, or the other way round
    /// for descending.
    pub fn compare(&self, a: &Torrent, b: &Torrent) -> (r: Ordering)
        ensures
            (r == Ordering::Less) <==> config_order(self.config, a@, b@) < 0,
            (r == Ordering::Equal) <==> config_order(self.config, a@, b@) == 0,
            (r == Ordering::Greater) <==> config_order(self.config, a@, b@) > 0,
    {
        let o: i8 = match self.config.field {
            SortField::Name => {
                let x = to_lowercase(a.name.as_str());
                let y = to_lowercase(b.name.as_str());
                lex_compare(&chars_of(x.as_str()), &chars_of(y.as_str()))
            },
            SortField::AddedAt => {
                if a.added_on < b.added_on { -1 } else if a.added_on > b.added_on { 1 } else { 0 }
            },
            SortField::CompletedAt => {
                let ca: i64 = match a.completion_on { Some(c) => c, None => 0 };
                let cb: i64 = match b.completion_on { Some(c) => c, None => 0 };
                if ca < cb { -1 } else if ca > cb { 1 } else { 0 }
            },
        };
        proof {
            lemma_field_order_props(self.config.field, a@, b@, a@);
        }
        let o2: i8 = match self.config.direction {
            SortDirection::Asc => o,
            SortDirection::Desc => -o,
        };
        if o2 < 0 {
            Ordering::Less
        } else if o2 == 0 {
            Ordering::Equal
        } else {
            Ordering::Greater
        }
    }
}

/// The indices `0..n` arranged so that each goes before the next.
fn sorted_indices(keys: &SortKeys, cfg: SortConfig, n: usize, Ghost(s): Ghost<Seq<TorrentView>>) -> (r: Vec<usize>)
    requires
        keys.matches(s),
        n == s.len(),
    ensures
        is_permutation(r@.map_values(|x: usize| x as int), n as nat),
        forall|i: int, j: int| 0 <= i < j < n ==> goes_before(cfg, s, #[trigger] r@[i] as int, #[trigger] r@[j] as int),
{
    let mut idx: Vec<usize> = Vec::new();
    let mut k: usize = 0;
    while k < n
        invariant
            keys.matches(s),
            n == s.len(),
            k <= n,
            idx.len() == k,
            forall|i: int| 0 <= i < k ==> 0 <= #[trigger] idx@[i] < k,
            forall|i: int, j: int| 0 <= i < j < k ==> idx@[i] != idx@[j],
            forall|i: int, j: int| 0 <= i < j < k ==> goes_before(cfg, s, #[trigger] idx@[i] as int, #[trigger] idx@[j] as int),
        decreases n - k,
    {
        let mut j: usize = k;
        while j > 0 && keys.before(cfg, k, idx[j - 1], Ghost(s))
            invariant
                keys.matches(s),
                n == s.len(),
                k < n,
                j <= k,
                idx.len() == k,
                forall|i: int| 0 <= i < k ==> 0 <= #[trigger] idx@[i] < k,
                forall|m: int| j <= m < k ==> goes_before(cfg, s, k as int, #[trigger] idx@[m] as int),
            decreases j,
        {
            j = j - 1;
        }
        let ghost old_idx = idx@;
        proof {
            if j > 0 {
                lemma_goes_before_total(cfg, s, k as int, old_idx[j - 1] as int);
                assert forall|m: int| 0 <= m < j implies goes_before(cfg, s, #[trigger] old_idx[m] as int, k as int) by {
                    if m < j - 1 {
                        lemma_goes_before_transitive(cfg, s, old_idx[m] as int, old_idx[j - 1] as int, k as int);
                    }
                }
            }
        }
        idx.insert(j, k);
        proof {
            assert forall|a: int, b: int| 0 <= a < b < k + 1 implies goes_before(cfg, s, #[trigger] idx@[a] as int, #[trigger] idx@[b] as int) by {
                if b < j {
                    assert(idx@[a] == old_idx[a] && idx@[b] == old_idx[b]);
                } else if b == j {
                    assert(idx@[a] == old_idx[a]);
                } else if a > j {
                    assert(idx@[a] == old_idx[a - 1] && idx@[b] == old_idx[b - 1]);
                } else if a == j {
                    assert(idx@[b] == old_idx[b - 1]);
                } else {
                    assert(idx@[a] == old_idx[a] && idx@[b] == old_idx[b - 1]);
                }
            }
            assert forall|a: int, b: int| 0 <= a < b < k + 1 implies idx@[a] != idx@[b] by {
                if idx@[a] == idx@[b] {
                    assert(goes_before(cfg, s, idx@[a] as int, idx@[b] as int));
                }
            }
        }
        k = k + 1;
    }
    idx
}

/// `v` stably sorted under `cfg`.
pub fn sorted_by(v: &Vec<Torrent>, cfg: SortConfig) -> (r: Vec<Torrent>)
    ensures
        stably_sorted(cfg, torrent_views(v@), torrent_views(r@)),
{
    let ghost s = torrent_views(v@);
    let keys = SortKeys::of(v);
    let idx = sorted_indices(&keys, cfg, v.len(), Ghost(s));
    assert forall|m: int| 0 <= m < idx.len() implies 0 <= #[trigger] idx@[m] < v.len() by {
        let p = idx@.map_values(|x: usize| x as int);
        assert(p[m] == idx@[m] as int);
    }
    let mut out: Vec<Torrent> = Vec::new();
    let mut i: usize = 0;
    while i < idx.len()
        invariant
            s == torrent_views(v@),
            idx.len() == v.len(),
            forall|m: int| 0 <= m < idx.len() ==> 0 <= #[trigger] idx@[m] < v.len(),
            i <= idx.len(),
            out.len() == i,
            forall|m: int| 0 <= m < i ==> #[trigger] out@[m]@ == s[idx@[m] as int],
        decreases idx.len() - i,
    {
        let ghost p = idx@.map_values(|x: usize| x as int);
        assert(p[i as int] == idx@[i as int]);
        out.push(v[idx[i]].duplicate());
        i = i + 1;
    }
    let ghost p = idx@.map_values(|x: usize| x as int);
    assert(forall|m: int| 0 <= m < idx.len() ==> #[trigger] p[m] == idx@[m] as int);
    assert(is_permutation(p, s.len()));
    assert forall|a: int, b: int| 0 <= a < b < out.len() implies goes_before(cfg, s, #[trigger] p[a], #[trigger] p[b]) by {
        assert(p[a] == idx@[a] as int && p[b] == idx@[b] as int);
    }
    assert forall|m: int| 0 <= m < out.len() implies #[trigger] torrent_views(out@)[m] == s[p[m]] by {
        assert(p[m] == idx@[m] as int);
    }
    assert(sorts_by(cfg, s, torrent_views(out@), p));
    assert(stably_sorted(cfg, s, torrent_views(out@)));
    out
}


/// The completed torrents of a list, in order.
pub open spec fn completed_only(s: Seq<TorrentView>) -> Seq<TorrentView>
    decreases s.len(),
{
    if s.len() == 0 {
        Seq::empty()
    } else {
        let p = completed_only(s.drop_last());
        if s.last().complete { p.push(s.last()) } else { p }
    }
}

/// Whether the list shows a torrent under a filter: it is complete and the
/// filter admits its recorded script state.
pub open spec fn is_listed(f: ScriptStateFilter, t: TorrentView) -> bool {
    t.complete && filter_admits(f, state_of_tags(t.tags))
}

/// The torrents the list shows under a filter, in order.
pub open spec fn listed(s: Seq<TorrentView>, f: ScriptStateFilter) -> Seq<TorrentView>
    decreases s.len(),
{
    if s.len() == 0 {
        Seq::empty()
    } else {
        let p = listed(s.drop_last(), f);
        if is_listed(f, s.last()) { p.push(s.last()) } else { p }
    }
}

/// The views of a sequence of torrent references.
pub open spec fn ref_views(v: Seq<&Torrent>) -> Seq<TorrentView> {
    v.map_values(|t: &Torrent| t@)
}

/// The torrents that the list shows under `f`.
pub fn listed_refs<'a>(v: &'a Vec<Torrent>, f: ScriptStateFilter) -> (r: Vec<&'a Torrent>)
    ensures
        ref_views(r@) == listed(torrent_views(v@), f),
{
    let ghost s = torrent_views(v@);
    let mut out: Vec<&Torrent> = Vec::new();
    let mut i: usize = 0;
    assert(s.take(0) =~= Seq::<TorrentView>::empty());
    assert(ref_views(out@) =~= listed(s.take(0), f));
    while i < v.len()
        invariant
            s == torrent_views(v@),
            i <= v.len(),
            ref_views(out@) == listed(s.take(i as int), f),
        decreases v.len() - i,
    {
        let t = &v[i];
        assert(s.take(i + 1).drop_last() =~= s.take(i as int));
        assert(s.take(i + 1).last() == t@);
        let ghost before = out@;
        let state = t.script_state();
        if t.complete && f.admits(state) {
            out.push(t);
            assert(ref_views(out@) =~= ref_views(before).push(t@));
        }
        i = i + 1;
    }
    assert(s.take(v.len() as int) =~= s);
    out
}

/// The completed torrents of `v`, copied.
pub fn completed_copies(v: &Vec<Torrent>) -> (r: Vec<Torrent>)
    ensures
        torrent_views(r@) == completed_only(torrent_views(v@)),
{
    let ghost s = torrent_views(v@);
    let mut out: Vec<Torrent> = Vec::new();
    let mut i: usize = 0;
    assert(s.take(0) =~= Seq::<TorrentView>::empty());
    assert(torrent_views(out@) =~= completed_only(s.take(0)));
    while i < v.len()
        invariant
            s == torrent_views(v@),
            i <= v.len(),
            torrent_views(out@) == completed_only(s.take(i as int)),
        decreases v.len() - i,
    {
        assert(s.take(i + 1).drop_last() =~= s.take(i as int));
        assert(s.take(i + 1).last() == v@[i as int]@);
        let ghost before = out@;
        if v[i].complete {
            out.push(v[i].duplicate());
            assert(torrent_views(out@) =~= torrent_views(before).push(v@[i as int]@));
        }
        i = i + 1;
    }
    assert(s.take(v.len() as int) =~= s);
    out
}


/// A listing is no longer than the list.
pub proof fn lemma_listed_len(s: Seq<TorrentView>, f: ScriptStateFilter)
    ensures
        listed(s, f).len() <= s.len(),
    decreases s.len(),
{
    if s.len() > 0 {
        lemma_listed_len(s.drop_last(), f);
    }
}

/// The filters split the completed torrents: `All` shows exactly the
/// completed ones, and each of them is shown under exactly one of `Not ran`,
/// `Ok` and `Fail`.
pub proof fn law_filters_partition(s: Seq<TorrentView>)
    ensures
        listed(s, ScriptStateFilter::All) == completed_only(s),
        completed_only(s).len() == listed(s, ScriptStateFilter::NotRan).len() + listed(
            s,
            ScriptStateFilter::Success,
        ).len() + listed(s, ScriptStateFilter::Fail).len(),
    decreases s.len(),
{
    if s.len() > 0 {
        law_filters_partition(s.drop_last());
    }
}

// ---- one outcome of a stable sort ----

/// No index goes before itself.
proof fn lemma_goes_before_irreflexive(cfg: SortConfig, s: Seq<TorrentView>, i: int)
    ensures
        !goes_before(cfg, s, i, i),
{
    lemma_field_order_props(cfg.field, s[i], s[i], s[i]);
}

/// A permutation of the indices below `n` reaches each of them.
proof fn lemma_permutation_onto(p: Seq<int>, n: nat, x: int)
    requires
        is_permutation(p, n),
        0 <= x < n,
    ensures
        exists|i: int| 0 <= i < n && p[i] == x,
{
    broadcast use vstd::seq_lib::group_seq_properties;
    broadcast use vstd::set_lib::group_set_properties;

    assert(p.no_duplicates()) by {
        assert forall|i: int, j: int| 0 <= i < p.len() && 0 <= j < p.len() && i != j implies p[i] != p[j] by {
            if i < j {
            } else {
            }
        }
    }
    p.unique_seq_to_set();
    vstd::set_lib::lemma_int_range(0, n as int);
    let range = vstd::set_lib::set_int_range(0, n as int);
    assert(p.to_set().subset_of(range)) by {
        assert forall|y: int| p.to_set().contains(y) implies range.contains(y) by {
            assert(p.contains(y));
            let i = choose|i: int| 0 <= i < p.len() && p[i] == y;
            assert(0 <= p[i] < n);
        }
    }
    vstd::set_lib::lemma_subset_equality(p.to_set(), range);
    assert(range.contains(x));
    assert(p.to_set().contains(x));
    assert(p.contains(x));
}

/// In a stable sort, the indices that go before the one at position `k`
/// are exactly those at the positions before `k`.
proof fn lemma_before_is_prefix(cfg: SortConfig, old: Seq<TorrentView>, new: Seq<TorrentView>, p: Seq<int>, k: int, x: int)
    requires
        sorts_by(cfg, old, new, p),
        0 <= k < old.len(),
        0 <= x < old.len(),
    ensures
        goes_before(cfg, old, x, p[k]) <==> exists|j: int| 0 <= j < k && p[j] == x,
{
    lemma_permutation_onto(p, old.len(), x);
    let i = choose|i: int| 0 <= i < old.len() && p[i] == x;
    if i < k {
        assert(goes_before(cfg, old, p[i], p[k]));
    } else if i == k {
        lemma_goes_before_irreflexive(cfg, old, x);
        assert forall|j: int| 0 <= j < k implies p[j] != x by {
            assert(p[j] != p[k]);
        }
    } else {
        assert(goes_before(cfg, old, p[k], p[i]));
        assert(p[i] != p[k]);
        lemma_goes_before_total(cfg, old, p[i], p[k]);
        assert forall|j: int| 0 <= j < k implies p[j] != x by {
            assert(p[j] != p[i]);
        }
    }
}

/// Two stable sorts of one list agree on the positions up to `k`.
proof fn lemma_sorts_agree(cfg: SortConfig, old: Seq<TorrentView>, a: Seq<TorrentView>, b: Seq<TorrentView>, p: Seq<int>, q: Seq<int>, k: int)
    requires
        sorts_by(cfg, old, a, p),
        sorts_by(cfg, old, b, q),
        0 <= k < old.len(),
    ensures
        forall|j: int| 0 <= j <= k ==> p[j] == q[j],
    decreases k,
{
    if k > 0 {
        lemma_sorts_agree(cfg, old, a, b, p, q, k - 1);
    }
    if p[k] != q[k] {
        lemma_goes_before_total(cfg, old, p[k], q[k]);
        if goes_before(cfg, old, p[k], q[k]) {
            lemma_before_is_prefix(cfg, old, b, q, k, p[k]);
            let j = choose|j: int| 0 <= j < k && q[j] == p[k];
            assert(p[j] == q[j]);
            assert(p[j] != p[k]);
        } else {
            lemma_before_is_prefix(cfg, old, a, p, k, q[k]);
            let j = choose|j: int| 0 <= j < k && p[j] == q[k];
            assert(p[j] == q[j]);
            assert(q[j] != q[k]);
        }
    }
}

/// A stable sort has one outcome: two stable sorts of the same list under
/// the same configuration give the same list.
pub proof fn law_stable_sort_is_unique(cfg: SortConfig, old: Seq<TorrentView>, a: Seq<TorrentView>, b: Seq<TorrentView>)
    requires
        stably_sorted(cfg, old, a),
        stably_sorted(cfg, old, b),
    ensures
        a == b,
{
    let p = choose|p: Seq<int>| sorts_by(cfg, old, a, p);
    let q = choose|q: Seq<int>| sorts_by(cfg, old, b, q);
    if old.len() > 0 {
        lemma_sorts_agree(cfg, old, a, b, p, q, old.len() - 1);
        assert forall|i: int| 0 <= i < a.len() implies a[i] == b[i] by {
            assert(p[i] == q[i]);
        }
    }
    assert(a =~= b);
}

/// A sorted list is its own stable sort.
proof fn lemma_sorted_is_fixed(cfg: SortConfig, old: Seq<TorrentView>, a: Seq<TorrentView>)
    requires
        stably_sorted(cfg, old, a),
    ensures
        stably_sorted(cfg, a, a),
{
    let p = choose|p: Seq<int>| sorts_by(cfg, old, a, p);
    let id = Seq::new(a.len(), |i: int| i);
    assert forall|i: int, j: int| 0 <= i < j < a.len() implies goes_before(cfg, a, #[trigger] id[i], #[trigger] id[j]) by {
        assert(goes_before(cfg, old, p[i], p[j]));
        assert(a[i] == old[p[i]]);
        assert(a[j] == old[p[j]]);
    }
    assert(sorts_by(cfg, a, a, id));
}

/// Sorting a sorted list again leaves it as it is.
pub proof fn law_sorting_twice_changes_nothing(cfg: SortConfig, old: Seq<TorrentView>, a: Seq<TorrentView>, c: Seq<TorrentView>)
    requires
        stably_sorted(cfg, old, a),
        stably_sorted(cfg, a, c),
    ensures
        c == a,
{
    lemma_sorted_is_fixed(cfg, old, a);
    law_stable_sort_is_unique(cfg, a, c, a);
}

/// The positions of `s` that the list shows under `f`.
pub open spec fn listed_positions(s: Seq<TorrentView>, f: ScriptStateFilter) -> Set<int> {
    Set::new(|i: int| 0 <= i < s.len() && is_listed(f, s[i]))
}

/// The listing is as long as the set of listed positions.
proof fn lemma_listed_positions_len(s: Seq<TorrentView>, f: ScriptStateFilter)
    ensures
        listed_positions(s, f).finite(),
        listed_positions(s, f).len() == listed(s, f).len(),
    decreases s.len(),
{
    broadcast use vstd::set::group_set_axioms;
    broadcast use vstd::set_lib::group_set_properties;

    if s.len() == 0 {
        assert(listed_positions(s, f) =~= Set::<int>::empty());
    } else {
        let prev = s.drop_last();
        lemma_listed_positions_len(prev, f);
        let last = s.len() - 1;
        if is_listed(f, s.last()) {
            assert(listed_positions(s, f) =~= listed_positions(prev, f).insert(last));
            assert(!listed_positions(prev, f).contains(last));
        } else {
            assert(listed_positions(s, f) =~= listed_positions(prev, f));
        }
    }
}

/// Sorting keeps how many torrents each filter shows.
pub proof fn law_sorting_keeps_shown_count(cfg: SortConfig, old: Seq<TorrentView>, new: Seq<TorrentView>, f: ScriptStateFilter)
    requires
        stably_sorted(cfg, old, new),
    ensures
        listed(new, f).len() == listed(old, f).len(),
{
    broadcast use vstd::set::group_set_axioms;

    let p = choose|p: Seq<int>| sorts_by(cfg, old, new, p);
    let fp = |i: int| p[i];
    let from = listed_positions(new, f);
    let to = listed_positions(old, f);
    lemma_listed_positions_len(new, f);
    lemma_listed_positions_len(old, f);
    assert(vstd::relations::injective_on(fp, from)) by {
        assert forall|a: int, b: int| from.contains(a) && from.contains(b) && #[trigger] fp(a) == #[trigger] fp(b) implies a == b by {
            if a < b {
                assert(p[a] != p[b]);
            } else if b < a {
                assert(p[b] != p[a]);
            }
        }
    }
    assert(from.map(fp) =~= to) by {
        assert forall|j: int| to.contains(j) implies from.map(fp).contains(j) by {
            lemma_permutation_onto(p, old.len(), j);
            let i = choose|i: int| 0 <= i < old.len() && p[i] == j;
            assert(new[i] == old[p[i]]);
            assert(from.contains(i));
            assert(fp(i) == j);
        }
        assert forall|j: int| from.map(fp).contains(j) implies to.contains(j) by {
            let i = choose|i: int| from.contains(i) && fp(i) == j;
            assert(new[i] == old[p[i]]);
        }
    }
    vstd::set_lib::lemma_map_size(from, to, fp);
}

} // verus!
