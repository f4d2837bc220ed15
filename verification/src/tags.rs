//! Re-tagging a torrent after a script run, and the proof that the new tag
//! list records the run's outcome.
use vstd::prelude::*;
use crate::bindings::is_white_space;
use crate::models::{fail_tag, has_tag, ok_tag, state_of_tags, ScriptState};
use crate::text::{
    char_views, chars_equal, chars_of, lemma_split_nonempty, split_chars, split_on, string_of,
    text_equals, trim, trim_chars, trim_end, trim_start,
};

verus! {

/// The trimmed pieces kept when re-tagging: non-empty, and neither `remove`
/// nor `tag`.
pub open spec fn kept_tags(pieces: Seq<Seq<char>>, remove: Seq<char>, tag: Seq<char>) -> Seq<Seq<char>>
    decreases pieces.len(),
{
    if pieces.len() == 0 {
        Seq::empty()
    } else {
        let prev = kept_tags(pieces.drop_last(), remove, tag);
        let t = trim(pieces.last());
        if t.len() > 0 && t != remove && t != tag {
            prev.push(t)
        } else {
            prev
        }
    }
}

/// Each kept piece followed by `", "`.
pub open spec fn tag_prefix(kept: Seq<Seq<char>>) -> Seq<char>
    decreases kept.len(),
{
    if kept.len() == 0 {
        Seq::empty()
    } else {
        tag_prefix(kept.drop_last()) + kept.last() + seq![',', ' ']
    }
}

/// The tag that re-tagging with `tag` takes away.
pub open spec fn opposite_tag(tag: Seq<char>) -> Seq<char> {
    if tag == ok_tag() {
        fail_tag()
    } else {
        ok_tag()
    }
}

/// The tag list after re-tagging with `tag`: the other pieces, trimmed and
/// without `tag` or its opposite, joined by `", "`, then `tag` last.
pub open spec fn retagged(tags: Seq<char>, tag: Seq<char>) -> Seq<char> {
    tag_prefix(kept_tags(split_on(tags, ','), opposite_tag(tag), tag)) + tag
}

/// The re-tagged list for `tags` and `tag`.
pub fn retag(tags: &str, tag: &str) -> (r: String)
    ensures
        r@ == retagged(tags@, tag@),
{
    let ok = "oc_ok";
    let fail = "oc_fail";
    proof {
        reveal_strlit("oc_ok");
        reveal_strlit("oc_fail");
        assert(ok@ =~= ok_tag());
        assert(fail@ =~= fail_tag());
    }
    let remove = if text_equals(tag, ok) { fail } else { ok };
    let remove_v = chars_of(remove);
    let tag_v = chars_of(tag);
    let v = chars_of(tags);
    let pieces = split_chars(&v, ',');
    let ghost sp = split_on(tags@, ',');
    let sep = ", ";
    proof {
        reveal_strlit(", ");
        assert(sep@ =~= seq![',', ' ']);
    }
    let mut out = String::new();
    let mut k: usize = 0;
    assert(sp.take(0) =~= Seq::<Seq<char>>::empty());
    while k < pieces.len()
        invariant
            k <= pieces.len(),
            char_views(pieces@) == sp,
            sp == split_on(tags@, ','),
            remove_v@ == opposite_tag(tag@),
            tag_v@ == tag@,
            sep@ == seq![',', ' '],
            out@ == tag_prefix(kept_tags(sp.take(k as int), opposite_tag(tag@), tag@)),
        decreases pieces.len() - k,
    {
        let tp = trim_chars(&pieces[k]);
        assert(sp[k as int] == pieces@[k as int]@);
        assert(sp.take(k + 1).drop_last() =~= sp.take(k as int));
        assert(sp.take(k + 1).last() == sp[k as int]);
        let ghost prev = kept_tags(sp.take(k as int), opposite_tag(tag@), tag@);
        assert(trim(sp.take(k + 1).last()) == tp@);
        if tp.len() > 0 && !chars_equal(&tp, &remove_v) && !chars_equal(&tp, &tag_v) {
            let ts = string_of(&tp);
            let ghost before = out@;
            out.append(ts.as_str());
            out.append(sep);
            assert(kept_tags(sp.take(k + 1), opposite_tag(tag@), tag@) == prev.push(tp@));
            assert(prev.push(tp@).drop_last() =~= prev);
            assert(out@ =~= before + tp@ + seq![',', ' ']);
        } else {
            assert(kept_tags(sp.take(k + 1), opposite_tag(tag@), tag@) == prev);
        }
        k = k + 1;
    }
    assert(sp.take(pieces.len() as int) =~= sp);
    let ghost before = out@;
    out.append(tag);
    out
}

/// The tag that records a run's outcome.
pub fn outcome_tag(success: bool) -> (r: &'static str)
    ensures
        r@ == if success { ok_tag() } else { fail_tag() },
{
    proof {
        reveal_strlit("oc_ok");
        reveal_strlit("oc_fail");
    }
    if success { "oc_ok" } else { "oc_fail" }
}

// ---- lemmas on splitting ----

/// Whether `s` holds no `c`.
pub open spec fn free_of(s: Seq<char>, c: char) -> bool {
    forall|i: int| 0 <= i < s.len() ==> s[i] != c
}

proof fn lemma_split_concat(a: Seq<char>, b: Seq<char>, sep: char)
    ensures
        split_on(a + seq![sep] + b, sep) == split_on(a, sep) + split_on(b, sep),
    decreases b.len(),
{
    let s = a + seq![sep] + b;
    if b.len() == 0 {
        assert(s.drop_last() =~= a);
        assert(split_on(b, sep) =~= seq![Seq::<char>::empty()]);
        assert(split_on(a, sep).push(Seq::<char>::empty()) =~= split_on(a, sep) + split_on(b, sep));
    } else {
        let b2 = b.drop_last();
        lemma_split_concat(a, b2, sep);
        assert(s.drop_last() =~= a + seq![sep] + b2);
        assert(s.last() == b.last());
        lemma_split_nonempty(b2, sep);
        lemma_split_nonempty(a, sep);
        let pa = split_on(a, sep);
        let pb2 = split_on(b2, sep);
        if b.last() == sep {
            assert((pa + pb2).push(Seq::<char>::empty()) =~= pa + pb2.push(Seq::<char>::empty()));
        } else {
            let whole = pa + pb2;
            assert(whole.update(whole.len() - 1, whole.last().push(b.last())) =~= pa + pb2.update(
                pb2.len() - 1,
                pb2.last().push(b.last()),
            ));
        }
    }
}

proof fn lemma_split_free(b: Seq<char>, sep: char)
    requires
        free_of(b, sep),
    ensures
        split_on(b, sep) == seq![b],
    decreases b.len(),
{
    if b.len() > 0 {
        lemma_split_free(b.drop_last(), sep);
        assert(b[b.len() - 1] != sep);
        assert(b.drop_last().push(b.last()) =~= b);
        assert(seq![b.drop_last()].update(0, b.drop_last().push(b.last())) =~= seq![b]);
    } else {
        assert(b =~= Seq::<char>::empty());
    }
}

proof fn lemma_split_pieces_free(s: Seq<char>, sep: char)
    ensures
        forall|k: int| 0 <= k < split_on(s, sep).len() ==> free_of(#[trigger] split_on(s, sep)[k], sep),
    decreases s.len(),
{
    if s.len() > 0 {
        lemma_split_pieces_free(s.drop_last(), sep);
        lemma_split_nonempty(s.drop_last(), sep);
    }
}

/// The pieces that splitting `tag_prefix(kept) + b` on commas gives.
pub open spec fn tag_pieces(kept: Seq<Seq<char>>, b: Seq<char>) -> Seq<Seq<char>>
    decreases kept.len(),
{
    if kept.len() == 0 {
        seq![b]
    } else {
        tag_pieces(kept.drop_last(), kept.last()).push(seq![' '] + b)
    }
}

proof fn lemma_split_tag_prefix(kept: Seq<Seq<char>>, b: Seq<char>)
    requires
        forall|i: int| 0 <= i < kept.len() ==> free_of(#[trigger] kept[i], ','),
        free_of(b, ','),
    ensures
        split_on(tag_prefix(kept) + b, ',') == tag_pieces(kept, b),
    decreases kept.len(),
{
    if kept.len() == 0 {
        assert(tag_prefix(kept) + b =~= b);
        lemma_split_free(b, ',');
    } else {
        let k2 = kept.drop_last();
        let k = kept.last();
        assert(free_of(k, ','));
        lemma_split_tag_prefix(k2, k);
        let sb = seq![' '] + b;
        assert(free_of(sb, ','));
        lemma_split_free(sb, ',');
        assert(tag_prefix(kept) + b =~= (tag_prefix(k2) + k) + seq![','] + sb);
        lemma_split_concat(tag_prefix(k2) + k, sb, ',');
    }
}

// ---- lemmas on trimming ----

proof fn lemma_trim_start_shape(s: Seq<char>)
    ensures
        trim_start(s).len() <= s.len(),
        trim_start(s) == s.skip(s.len() - trim_start(s).len()),
        trim_start(s).len() > 0 ==> !is_white_space(trim_start(s)[0]),
    decreases s.len(),
{
    if s.len() > 0 && is_white_space(s[0]) {
        lemma_trim_start_shape(s.drop_first());
        assert(s.drop_first().skip(s.drop_first().len() - trim_start(s).len()) =~= s.skip(
            s.len() - trim_start(s).len(),
        ));
    } else {
        assert(s.skip(0) =~= s);
    }
}

proof fn lemma_trim_end_shape(s: Seq<char>)
    ensures
        trim_end(s).len() <= s.len(),
        trim_end(s) == s.take(trim_end(s).len() as int),
        trim_end(s).len() > 0 ==> !is_white_space(trim_end(s).last()),
    decreases s.len(),
{
    if s.len() > 0 && is_white_space(s.last()) {
        lemma_trim_end_shape(s.drop_last());
        assert(s.drop_last().take(trim_end(s).len() as int) =~= s.take(trim_end(s).len() as int));
    } else {
        assert(s.take(s.len() as int) =~= s);
    }
}

proof fn lemma_trim_start_fixed(s: Seq<char>)
    requires
        s.len() == 0 || !is_white_space(s[0]),
    ensures
        trim_start(s) == s,
{
}

proof fn lemma_trim_end_fixed(s: Seq<char>)
    requires
        s.len() == 0 || !is_white_space(s.last()),
    ensures
        trim_end(s) == s,
{
}

/// Trimming twice is trimming once; a trimmed text neither starts nor ends
/// with whitespace.
proof fn lemma_trim_idempotent(s: Seq<char>)
    ensures
        trim(trim(s)) == trim(s),
        trim(s).len() > 0 ==> !is_white_space(trim(s)[0]),
        trim(s).len() > 0 ==> !is_white_space(trim(s).last()),
        forall|c: char| free_of(s, c) ==> free_of(trim(s), c),
{
    let ts = trim_start(s);
    lemma_trim_start_shape(s);
    lemma_trim_end_shape(ts);
    let t = trim_end(ts);
    if t.len() > 0 {
        assert(t[0] == ts[0]);
    }
    lemma_trim_start_fixed(t);
    lemma_trim_end_fixed(t);
    assert forall|c: char| free_of(s, c) implies free_of(trim(s), c) by {
        assert forall|i: int| 0 <= i < t.len() implies t[i] != c by {
            assert(t[i] == ts[i]);
            assert(ts[i] == s[s.len() - ts.len() + i]);
        }
    }
}

proof fn lemma_trim_space_prefix(x: Seq<char>)
    requires
        trim(x) == x,
    ensures
        trim(seq![' '] + x) == x,
{
    assert(is_white_space(' '));
    assert((seq![' '] + x).drop_first() =~= x);
}

/// What each piece of the re-tagged list trims to.
proof fn lemma_tag_pieces_trim(kept: Seq<Seq<char>>, b: Seq<char>)
    requires
        forall|i: int| 0 <= i < kept.len() ==> trim(#[trigger] kept[i]) == kept[i],
        trim(b) == b,
    ensures
        tag_pieces(kept, b).len() == kept.len() + 1,
        forall|i: int| 0 <= i < kept.len() + 1 ==> #[trigger] trim(tag_pieces(kept, b)[i]) == kept.push(b)[i],
    decreases kept.len(),
{
    if kept.len() > 0 {
        let k2 = kept.drop_last();
        lemma_tag_pieces_trim(k2, kept.last());
        lemma_trim_space_prefix(b);
        assert forall|i: int| 0 <= i < kept.len() + 1 implies #[trigger] trim(tag_pieces(kept, b)[i]) == kept.push(b)[i] by {
            if i < kept.len() {
                assert(tag_pieces(kept, b)[i] == tag_pieces(k2, kept.last())[i]);
                assert(k2.push(kept.last())[i] == kept.push(b)[i]);
            }
        }
    }
}

/// What `kept_tags` keeps: trimmed, non-empty, comma-free, neither tag.
proof fn lemma_kept_tags_props(pieces: Seq<Seq<char>>, remove: Seq<char>, tag: Seq<char>)
    requires
        forall|i: int| 0 <= i < pieces.len() ==> free_of(#[trigger] pieces[i], ','),
    ensures
        forall|i: int| 0 <= i < kept_tags(pieces, remove, tag).len() ==> {
            let k = #[trigger] kept_tags(pieces, remove, tag)[i];
            &&& trim(k) == k
            &&& k.len() > 0
            &&& free_of(k, ',')
            &&& k != remove
            &&& k != tag
        },
    decreases pieces.len(),
{
    if pieces.len() > 0 {
        let pp = pieces.drop_last();
        lemma_kept_tags_props(pp, remove, tag);
        lemma_trim_idempotent(pieces.last());
        assert(free_of(pieces.last(), ','));
        assert(free_of(trim(pieces.last()), ','));
        let kt = kept_tags(pieces, remove, tag);
        let pk = kept_tags(pp, remove, tag);
        assert forall|i: int| 0 <= i < kt.len() implies {
            let k = #[trigger] kt[i];
            &&& trim(k) == k
            &&& k.len() > 0
            &&& free_of(k, ',')
            &&& k != remove
            &&& k != tag
        } by {
            if i < pk.len() {
                assert(kt[i] == pk[i]);
            }
        }
    }
}

proof fn lemma_tag_literals()
    ensures
        trim(ok_tag()) == ok_tag(),
        trim(fail_tag()) == fail_tag(),
        free_of(ok_tag(), ','),
        free_of(fail_tag(), ','),
        ok_tag() != fail_tag(),
{
    lemma_trim_start_fixed(ok_tag());
    lemma_trim_end_fixed(ok_tag());
    lemma_trim_start_fixed(fail_tag());
    lemma_trim_end_fixed(fail_tag());
    assert(ok_tag().len() != fail_tag().len());
}

/// The trimmed pieces of a re-tagged list are the kept pieces, then the tag.
proof fn lemma_retagged_pieces(tags: Seq<char>, tag: Seq<char>)
    requires
        tag == ok_tag() || tag == fail_tag(),
    ensures
        ({
            let kept = kept_tags(split_on(tags, ','), opposite_tag(tag), tag);
            let ps = split_on(retagged(tags, tag), ',');
            &&& ps.len() == kept.len() + 1
            &&& forall|i: int| 0 <= i < ps.len() ==> #[trigger] trim(ps[i]) == kept.push(tag)[i]
            &&& forall|i: int| 0 <= i < kept.len() ==> #[trigger] kept[i] != opposite_tag(tag)
        }),
{
    let sp = split_on(tags, ',');
    let kept = kept_tags(sp, opposite_tag(tag), tag);
    lemma_tag_literals();
    lemma_split_pieces_free(tags, ',');
    lemma_kept_tags_props(sp, opposite_tag(tag), tag);
    lemma_split_tag_prefix(kept, tag);
    lemma_tag_pieces_trim(kept, tag);
}

/// Re-tagging with `oc_ok` makes the recorded script state `Success`.
pub proof fn law_retag_ok_records_success(tags: Seq<char>)
    ensures
        state_of_tags(retagged(tags, ok_tag())) == ScriptState::Success,
{
    let t = retagged(tags, ok_tag());
    lemma_retagged_pieces(tags, ok_tag());
    let ps = split_on(t, ',');
    let kept = kept_tags(split_on(tags, ','), opposite_tag(ok_tag()), ok_tag());
    assert(trim(ps[kept.len() as int]) == ok_tag());
    assert(has_tag(t, ok_tag()));
}

/// Re-tagging with `oc_fail` makes the recorded script state `Fail`.
pub proof fn law_retag_fail_records_failure(tags: Seq<char>)
    ensures
        state_of_tags(retagged(tags, fail_tag())) == ScriptState::Fail,
{
    let t = retagged(tags, fail_tag());
    lemma_retagged_pieces(tags, fail_tag());
    lemma_tag_literals();
    let ps = split_on(t, ',');
    let kept = kept_tags(split_on(tags, ','), opposite_tag(fail_tag()), fail_tag());
    assert(opposite_tag(fail_tag()) == ok_tag());
    assert(trim(ps[kept.len() as int]) == fail_tag());
    assert forall|k: int| 0 <= k < ps.len() implies #[trigger] trim(ps[k]) != ok_tag() by {
        if k < kept.len() {
            assert(kept.push(fail_tag())[k] == kept[k]);
        }
    }
    assert(!has_tag(t, ok_tag()));
    assert(has_tag(t, fail_tag()));
}

/// Pieces that trim to non-empty texts other than `remove` and `tag` are all
/// kept, as their trimmed forms.
proof fn lemma_kept_all(pieces: Seq<Seq<char>>, remove: Seq<char>, tag: Seq<char>, q: Seq<Seq<char>>)
    requires
        pieces.len() == q.len(),
        forall|i: int| 0 <= i < q.len() ==> #[trigger] trim(pieces[i]) == q[i],
        forall|i: int| 0 <= i < q.len() ==> (#[trigger] q[i]).len() > 0 && q[i] != remove && q[i] != tag,
    ensures
        kept_tags(pieces, remove, tag) == q,
    decreases pieces.len(),
{
    if pieces.len() > 0 {
        let n = pieces.len() - 1;
        assert(trim(pieces[n]) == q[n]);
        assert(q[n].len() > 0);
        lemma_kept_all(pieces.drop_last(), remove, tag, q.drop_last());
        assert(q.drop_last().push(q.last()) =~= q);
    } else {
        assert(q =~= Seq::<Seq<char>>::empty());
    }
}

/// Re-tagging twice with the same tag gives what re-tagging once gave.
pub proof fn law_retag_twice_changes_nothing(tags: Seq<char>, tag: Seq<char>)
    requires
        tag == ok_tag() || tag == fail_tag(),
    ensures
        retagged(retagged(tags, tag), tag) == retagged(tags, tag),
{
    let sp = split_on(tags, ',');
    let kept = kept_tags(sp, opposite_tag(tag), tag);
    lemma_tag_literals();
    lemma_split_pieces_free(tags, ',');
    lemma_kept_tags_props(sp, opposite_tag(tag), tag);
    lemma_retagged_pieces(tags, tag);
    let ps = split_on(retagged(tags, tag), ',');
    let n = kept.len() as int;
    assert(trim(ps[n]) == kept.push(tag)[n]);
    assert(trim(ps.last()) == tag);
    let front = ps.drop_last();
    assert forall|i: int| 0 <= i < kept.len() implies #[trigger] trim(front[i]) == kept[i] by {
        assert(front[i] == ps[i]);
        assert(trim(ps[i]) == kept.push(tag)[i]);
    }
    assert forall|i: int| 0 <= i < kept.len() implies (#[trigger] kept[i]).len() > 0 && kept[i]
        != opposite_tag(tag) && kept[i] != tag by {}
    lemma_kept_all(front, opposite_tag(tag), tag, kept);
    assert(kept_tags(ps, opposite_tag(tag), tag) == kept);
}

/// A piece that re-tagging keeps appears among the kept pieces.
proof fn lemma_kept_holds(pieces: Seq<Seq<char>>, remove: Seq<char>, tag: Seq<char>, k: int)
    requires
        0 <= k < pieces.len(),
        trim(pieces[k]).len() > 0,
        trim(pieces[k]) != remove,
        trim(pieces[k]) != tag,
    ensures
        exists|j: int|
            0 <= j < kept_tags(pieces, remove, tag).len() && #[trigger] kept_tags(pieces, remove, tag)[j]
                == trim(pieces[k]),
    decreases pieces.len(),
{
    let pp = pieces.drop_last();
    let kt = kept_tags(pieces, remove, tag);
    if k == pieces.len() - 1 {
        assert(kt[kt.len() - 1] == trim(pieces[k]));
    } else {
        lemma_kept_holds(pp, remove, tag, k);
        assert(pp[k] == pieces[k]);
        let pk = kept_tags(pp, remove, tag);
        let j = choose|j: int| 0 <= j < pk.len() && #[trigger] pk[j] == trim(pp[k]);
        assert(kt[j] == pk[j]);
    }
}

/// Re-tagging keeps every other tag of the list: a non-empty tag that is
/// neither `oc_ok` nor `oc_fail` is still there afterwards.
pub proof fn law_retag_keeps_other_tags(tags: Seq<char>, tag: Seq<char>, other: Seq<char>)
    requires
        tag == ok_tag() || tag == fail_tag(),
        has_tag(tags, other),
        other.len() > 0,
        other != ok_tag(),
        other != fail_tag(),
    ensures
        has_tag(retagged(tags, tag), other),
{
    let sp = split_on(tags, ',');
    let k = choose|k: int| 0 <= k < sp.len() && #[trigger] trim(sp[k]) == other;
    lemma_kept_holds(sp, opposite_tag(tag), tag, k);
    let kept = kept_tags(sp, opposite_tag(tag), tag);
    let j = choose|j: int| 0 <= j < kept.len() && #[trigger] kept[j] == trim(sp[k]);
    lemma_retagged_pieces(tags, tag);
    let ps = split_on(retagged(tags, tag), ',');
    assert(trim(ps[j]) == kept.push(tag)[j]);
    assert(kept.push(tag)[j] == kept[j]);
}

/// Re-tagging takes the opposite tag away: after `oc_ok` the list holds no
/// `oc_fail`, and the reverse.
pub proof fn law_retag_drops_opposite_tag(tags: Seq<char>, tag: Seq<char>)
    requires
        tag == ok_tag() || tag == fail_tag(),
    ensures
        !has_tag(retagged(tags, tag), opposite_tag(tag)),
{
    lemma_retagged_pieces(tags, tag);
    lemma_tag_literals();
    let ps = split_on(retagged(tags, tag), ',');
    let kept = kept_tags(split_on(tags, ','), opposite_tag(tag), tag);
    assert forall|k: int| 0 <= k < ps.len() implies #[trigger] trim(ps[k]) != opposite_tag(tag) by {
        if k < kept.len() {
            assert(kept.push(tag)[k] == kept[k]);
        } else {
            assert(kept.push(tag)[k] == tag);
        }
    }
}

} // verus!
