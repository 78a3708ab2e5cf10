//! Related posts: the relations an author saves, and the list a reader sees
//! (the hand-picked ones first, then suggestions).
use vstd::prelude::*;

use crate::models::post::{Post, RelatedPostRef, RELATED_MANUAL_MAX};

verus! {

fn contains_id(v: &Vec<i64>, id: i64) -> (r: bool)
    ensures
        r == v@.contains(id),
{
    let mut i: usize = 0;
    while i < v.len()
        invariant
            0 <= i <= v.len(),
            forall|k: int| 0 <= k < i ==> v@[k] != id,
        decreases v.len() - i,
    {
        if v[i] == id {
            return true;
        }
        i = i + 1;
    }
    false
}

// ---------------------------------------------------------------------------
// Saved relations
// ---------------------------------------------------------------------------

/// The relations saved for `post_id` from the ids chosen, in their order:
/// the post itself, an id chosen before, and a post that does not exist
/// are passed over, and at most `RELATED_MANUAL_MAX` are kept.
pub open spec fn relation_list(ids: Seq<i64>, post_id: i64, existing: Seq<i64>) -> Seq<i64>
    decreases ids.len(),
{
    if ids.len() == 0 {
        Seq::empty()
    } else {
        let prev = relation_list(ids.drop_last(), post_id, existing);
        let x = ids.last();
        if x == post_id || ids.drop_last().contains(x) || prev.len() >= RELATED_MANUAL_MAX
            || !existing.contains(x) {
            prev
        } else {
            prev.push(x)
        }
    }
}

/// The relations to save for `post_id`; `existing` holds the chosen ids
/// that name a post.
pub fn relation_targets(post_id: i64, ids: &Vec<i64>, existing: &Vec<i64>) -> (r: Vec<i64>)
    ensures
        r@ == relation_list(ids@, post_id, existing@),
{
    let mut out: Vec<i64> = Vec::new();
    let mut seen: Vec<i64> = Vec::new();
    let mut i: usize = 0;
    while i < ids.len()
        invariant
            0 <= i <= ids.len(),
            out@ == relation_list(ids@.take(i as int), post_id, existing@),
            forall|x: i64| seen@.contains(x) <==> (ids@.take(i as int).contains(x) && x != post_id),
        decreases ids.len() - i,
    {
        let x = ids[i];
        let ghost s_old = seen@;
        proof {
            assert(ids@.take(i + 1).drop_last() =~= ids@.take(i as int));
            assert(ids@.take(i + 1).last() == x);
            assert(ids@.take(i + 1) =~= ids@.take(i as int).push(x));
        }
        if x != post_id && !contains_id(&seen, x) {
            seen.push(x);
            if out.len() < RELATED_MANUAL_MAX && contains_id(existing, x) {
                out.push(x);
            }
        }
        proof {
            assert forall|y: i64| seen@.contains(y) <==> (ids@.take(i + 1).contains(y) && y != post_id) by {
                assert(ids@.take(i as int).push(x).contains(y) <==> (ids@.take(i as int).contains(y) || y == x)) by {
                    if ids@.take(i as int).push(x).contains(y) {
                        let k = choose|k: int| 0 <= k < i + 1 && #[trigger] ids@.take(i as int).push(x)[k] == y;
                        if k < i {
                            assert(ids@.take(i as int)[k] == y);
                        }
                    }
                    if ids@.take(i as int).contains(y) {
                        let k = choose|k: int| 0 <= k < i && #[trigger] ids@.take(i as int)[k] == y;
                        assert(ids@.take(i as int).push(x)[k] == y);
                    }
                    if y == x {
                        assert(ids@.take(i as int).push(x)[i as int] == y);
                    }
                }
                if seen@.len() > s_old.len() {
                    assert(seen@ =~= s_old.push(x));
                    if seen@.contains(y) {
                        let k = choose|k: int| 0 <= k < seen@.len() && #[trigger] seen@[k] == y;
                        if k < s_old.len() {
                            assert(s_old[k] == y);
                        }
                    }
                    if s_old.contains(y) {
                        let k = choose|k: int| 0 <= k < s_old.len() && #[trigger] s_old[k] == y;
                        assert(seen@[k] == y);
                    }
                    if y == x {
                        assert(seen@[s_old.len() as int] == y);
                    }
                }
            }
        }
        i = i + 1;
    }
    proof {
        assert(ids@.take(ids@.len() as int) =~= ids@);
    }
    out
}

// ---------------------------------------------------------------------------
// The list a reader sees
// ---------------------------------------------------------------------------

/// `r` shows the post `p`.
pub open spec fn ref_of(r: RelatedPostRef, p: Post) -> bool {
    &&& r.id == p.id
    &&& r.title@ == p.title@
    &&& r.slug@ == p.slug@
    &&& r.created_at@ == p.created_at@
    &&& match (r.published_at, p.published_at) {
        (Some(a), Some(b)) => a@ == b@,
        (None, None) => true,
        _ => false,
    }
}

pub open spec fn ids_at(posts: Seq<Post>, idx: Seq<int>) -> Seq<i64> {
    idx.map_values(|i: int| posts[i].id)
}

/// Which of the hand-picked posts a reader sees, by position: those that
/// are published, not private unless private posts are shown, not the post
/// itself and not shown already, at most `limit`.
pub open spec fn manual_picks(posts: Seq<Post>, post_id: i64, include_private: bool, limit: nat) -> Seq<
    int,
>
    decreases posts.len(),
{
    if posts.len() == 0 {
        Seq::empty()
    } else {
        let prev = manual_picks(posts.drop_last(), post_id, include_private, limit);
        let p = posts.last();
        if prev.len() >= limit || !p.published() || (!include_private && p.private()) || p.id
            == post_id || ids_at(posts, prev).contains(p.id) {
            prev
        } else {
            prev.push(posts.len() - 1)
        }
    }
}

proof fn lemma_picks_bounded(posts: Seq<Post>, post_id: i64, include_private: bool, limit: nat)
    ensures
        forall|k: int|
            0 <= k < manual_picks(posts, post_id, include_private, limit).len() ==> 0
                <= #[trigger] manual_picks(posts, post_id, include_private, limit)[k]
                < posts.len(),
    decreases posts.len(),
{
    if posts.len() > 0 {
        let prev = manual_picks(posts.drop_last(), post_id, include_private, limit);
        lemma_picks_bounded(posts.drop_last(), post_id, include_private, limit);
        let cur = manual_picks(posts, post_id, include_private, limit);
        assert(cur == prev || cur == prev.push(posts.len() - 1));
        assert forall|k: int| 0 <= k < cur.len() implies 0 <= #[trigger] cur[k] < posts.len() by {
            if k < prev.len() {
                assert(cur[k] == prev[k]);
            }
        }
    }
}

/// The hand-picked posts a reader sees (`manual_picks`), and the ids that
/// suggestions must avoid: the post itself and those shown.
pub fn pick_manual_related(post_id: i64, manual: &Vec<Post>, include_private: bool, limit: usize) -> (r: (
    Vec<RelatedPostRef>,
    Vec<i64>,
))
    ensures
        r.0@.len() == manual_picks(manual@, post_id, include_private, limit as nat).len(),
        forall|k: int|
            0 <= k < r.0@.len() ==> ref_of(
                #[trigger] r.0@[k],
                manual@[manual_picks(manual@, post_id, include_private, limit as nat)[k]],
            ),
        r.1@ == seq![post_id] + ids_at(
            manual@,
            manual_picks(manual@, post_id, include_private, limit as nat),
        ),
{
    let mut out: Vec<RelatedPostRef> = Vec::new();
    let mut shown: Vec<i64> = Vec::new();
    let ghost mut idx: Seq<int> = Seq::empty();
    let mut i: usize = 0;
    while i < manual.len()
        invariant
            0 <= i <= manual.len(),
            idx == manual_picks(manual@.take(i as int), post_id, include_private, limit as nat),
            forall|k: int| 0 <= k < idx.len() ==> 0 <= #[trigger] idx[k] < i,
            out@.len() == idx.len(),
            forall|k: int| 0 <= k < out@.len() ==> ref_of(#[trigger] out@[k], manual@[idx[k]]),
            shown@ == ids_at(manual@, idx),
        decreases manual.len() - i,
    {
        let p = &manual[i];
        let ghost t = manual@.take(i + 1);
        proof {
            assert(t.drop_last() =~= manual@.take(i as int));
            assert(t.last() == manual@[i as int]);
            assert(ids_at(t, idx) =~= ids_at(manual@, idx));
        }
        if out.len() < limit && p.is_published() && (include_private || !p.is_private()) && p.id
            != post_id && !contains_id(&shown, p.id) {
            out.push(RelatedPostRef::from_post(p));
            shown.push(p.id);
            proof {
                idx = idx.push(i as int);
                assert(shown@ =~= ids_at(manual@, idx));
            }
        }
        i = i + 1;
    }
    proof {
        assert(manual@.take(manual@.len() as int) =~= manual@);
    }
    let mut seen: Vec<i64> = Vec::new();
    seen.push(post_id);
    let mut j: usize = 0;
    while j < shown.len()
        invariant
            0 <= j <= shown.len(),
            seen@ == seq![post_id] + shown@.take(j as int),
        decreases shown.len() - j,
    {
        seen.push(shown[j]);
        j = j + 1;
        assert(seen@ =~= seq![post_id] + shown@.take(j as int));
    }
    assert(shown@.take(shown@.len() as int) =~= shown@);
    (out, seen)
}

/// The list after suggestions `auto` are added to `shown`: each one not
/// among `seen` joins, until there are `limit`.
pub open spec fn fill_ids(shown: Seq<i64>, seen: Seq<i64>, auto: Seq<i64>, limit: nat) -> Seq<i64>
    decreases auto.len(),
{
    if auto.len() == 0 {
        shown
    } else {
        let prev = fill_ids(shown, seen, auto.drop_last(), limit);
        let x = auto.last();
        if prev.len() >= limit || seen.contains(x) || auto.drop_last().contains(x) {
            prev
        } else {
            prev.push(x)
        }
    }
}

pub open spec fn ref_ids(v: Seq<RelatedPostRef>) -> Seq<i64> {
    v.map_values(|r: RelatedPostRef| r.id)
}

/// Adds the suggestions to the list a reader sees: each one whose id is
/// not in `seen` (nor suggested before) is added, until the list holds
/// `limit`.
pub fn fill_related(shown: &mut Vec<RelatedPostRef>, seen: &Vec<i64>, auto: Vec<RelatedPostRef>, limit: usize)
    ensures
        ref_ids(final(shown)@) == fill_ids(ref_ids(old(shown)@), seen@, ref_ids(auto@), limit as nat),
        final(shown)@.len() >= old(shown)@.len(),
        final(shown)@.take(old(shown)@.len() as int) == old(shown)@,
        forall|k: int|
            old(shown)@.len() <= k < final(shown)@.len() ==> auto@.contains(#[trigger] final(shown)@[k]),
{
    let ghost a0 = auto@;
    let ghost s0 = shown@;
    let mut used: Vec<i64> = Vec::new();
    let mut auto = auto;
    let mut back: Vec<RelatedPostRef> = Vec::new();
    while auto.len() > 0
        invariant
            auto@ =~= a0.take(auto@.len() as int),
            auto@.len() + back@.len() == a0.len(),
            forall|k: int| 0 <= k < back@.len() ==> #[trigger] back@[k] == a0[a0.len() - 1 - k],
        decreases auto.len(),
    {
        let x = auto.pop().unwrap();
        back.push(x);
    }
    while back.len() > 0
        invariant
            back@.len() <= a0.len(),
            forall|k: int| 0 <= k < back@.len() ==> #[trigger] back@[k] == a0[a0.len() - 1 - k],
            ref_ids(shown@) == fill_ids(
                ref_ids(s0),
                seen@,
                ref_ids(a0.take(a0.len() - back@.len())),
                limit as nat,
            ),
            used@ == ref_ids(a0.take(a0.len() - back@.len())),
            shown@.len() >= s0.len(),
            shown@.take(s0.len() as int) == s0,
            forall|k: int| s0.len() <= k < shown@.len() ==> a0.contains(#[trigger] shown@[k]),
        decreases back.len(),
    {
        let ghost done = a0.len() - back@.len();
        let x = back.pop().unwrap();
        proof {
            assert(x == a0[done]);
            assert(a0.take(done + 1).drop_last() =~= a0.take(done));
            assert(ref_ids(a0.take(done + 1)).drop_last() =~= ref_ids(a0.take(done)));
            assert(ref_ids(a0.take(done + 1)).last() == x.id);
        }
        let id = x.id;
        if shown.len() < limit && !contains_id(seen, id) && !contains_id(&used, id) {
            let ghost before = shown@;
            shown.push(x);
            proof {
                assert(ref_ids(shown@) =~= ref_ids(before).push(id));
                assert(shown@.take(s0.len() as int) =~= before.take(s0.len() as int));
                assert(shown@[shown@.len() - 1] == a0[done]);
            }
        }
        used.push(id);
        proof {
            assert(used@ =~= ref_ids(a0.take(done + 1)));
        }
    }
    proof {
        assert(a0.take(a0.len() as int) =~= a0);
    }
}

/// What follows the suggestions scored by shared categories and tags.
pub enum SuggestNext {
    /// There were enough: these are the suggestions.
    Done(Vec<RelatedPostRef>),
    /// The most recent posts fill the rest: `need` more, none of
    /// `exclude`, after `scored`.
    Recent { scored: Vec<RelatedPostRef>, exclude: Vec<i64>, need: usize },
}

/// Where the scored suggestions reach `limit`, the first `limit` of them
/// are the suggestions; otherwise recent posts are wanted for the rest,
/// avoiding the ids avoided so far and those scored.
pub fn after_scored(scored: Vec<RelatedPostRef>, exclude: &Vec<i64>, limit: usize) -> (r: SuggestNext)
    ensures
        scored@.len() >= limit ==> (r matches SuggestNext::Done(v) && v@ == scored@.take(
            limit as int,
        )),
        scored@.len() < limit ==> (r matches SuggestNext::Recent { scored: s, exclude: e, need }
            && s@ == scored@ && e@ == exclude@ + ref_ids(scored@) && need == limit - scored@.len()),
{
    if scored.len() >= limit {
        let mut v = scored;
        v.truncate(limit);
        return SuggestNext::Done(v);
    }
    let mut e: Vec<i64> = Vec::new();
    let mut i: usize = 0;
    while i < exclude.len()
        invariant
            0 <= i <= exclude.len(),
            e@ == exclude@.take(i as int),
        decreases exclude.len() - i,
    {
        e.push(exclude[i]);
        i = i + 1;
        assert(e@ =~= exclude@.take(i as int));
    }
    assert(exclude@.take(exclude@.len() as int) =~= exclude@);
    let mut j: usize = 0;
    while j < scored.len()
        invariant
            0 <= j <= scored.len(),
            e@ == exclude@ + ref_ids(scored@.take(j as int)),
        decreases scored.len() - j,
    {
        e.push(scored[j].id);
        j = j + 1;
        assert(ref_ids(scored@.take(j as int)) =~= ref_ids(scored@.take(j - 1)).push(scored@[j - 1].id));
        assert(e@ =~= exclude@ + ref_ids(scored@.take(j as int)));
    }
    assert(scored@.take(scored@.len() as int) =~= scored@);
    let need = limit - scored.len();
    SuggestNext::Recent { scored, exclude: e, need }
}

// ---------------------------------------------------------------------------
// Laws
// ---------------------------------------------------------------------------

/// The relations saved for a post are at most `RELATED_MANUAL_MAX`, never
/// the post itself, each a chosen post that exists, and none twice.
pub proof fn law_relations_clean(ids: Seq<i64>, post_id: i64, existing: Seq<i64>)
    ensures
        relation_list(ids, post_id, existing).len() <= RELATED_MANUAL_MAX,
        forall|k: int|
            0 <= k < relation_list(ids, post_id, existing).len() ==> {
                let x = #[trigger] relation_list(ids, post_id, existing)[k];
                x != post_id && existing.contains(x) && ids.contains(x)
            },
        forall|a: int, b: int|
            0 <= a < b < relation_list(ids, post_id, existing).len() ==> #[trigger] relation_list(
                ids,
                post_id,
                existing,
            )[a] != #[trigger] relation_list(ids, post_id, existing)[b],
    decreases ids.len(),
{
    if ids.len() > 0 {
        let d = ids.drop_last();
        law_relations_clean(d, post_id, existing);
        let prev = relation_list(d, post_id, existing);
        let r = relation_list(ids, post_id, existing);
        let x = ids.last();
        assert forall|k: int| 0 <= k < prev.len() implies ids.contains(#[trigger] prev[k]) by {
            let j = choose|j: int| 0 <= j < d.len() && d[j] == prev[k];
            assert(ids[j] == prev[k]);
        }
        if r != prev {
            assert(r == prev.push(x));
            assert(ids.contains(x)) by {
                assert(ids[ids.len() - 1] == x);
            }
            assert forall|k: int| 0 <= k < prev.len() implies #[trigger] prev[k] != x by {
                let j = choose|j: int| 0 <= j < d.len() && d[j] == prev[k];
                assert(d.contains(prev[k]));
            }
            assert forall|k: int| 0 <= k < r.len() implies {
                let y = #[trigger] r[k];
                y != post_id && existing.contains(y) && ids.contains(y)
            } by {
                if k < prev.len() {
                    assert(r[k] == prev[k]);
                }
            }
            assert forall|a: int, b: int| 0 <= a < b < r.len() implies #[trigger] r[a] != #[trigger] r[b] by {
                if b < prev.len() {
                    assert(r[a] == prev[a] && r[b] == prev[b]);
                } else {
                    assert(r[a] == prev[a]);
                }
            }
        }
    }
}

/// The hand-picked posts a reader sees are at most `limit`, published,
/// not private unless private posts are shown, never the post itself, and
/// none twice.
pub proof fn law_manual_picks_clean(posts: Seq<Post>, post_id: i64, include_private: bool, limit: nat)
    ensures
        manual_picks(posts, post_id, include_private, limit).len() <= limit,
        forall|k: int|
            0 <= k < manual_picks(posts, post_id, include_private, limit).len() ==> {
                let p = posts[#[trigger] manual_picks(posts, post_id, include_private, limit)[k]];
                p.published() && (include_private || !p.private()) && p.id != post_id
            },
        forall|a: int, b: int|
            0 <= a < b < manual_picks(posts, post_id, include_private, limit).len() ==> ids_at(
                posts,
                manual_picks(posts, post_id, include_private, limit),
            )[a] != ids_at(posts, manual_picks(posts, post_id, include_private, limit))[b],
    decreases posts.len(),
{
    lemma_picks_bounded(posts, post_id, include_private, limit);
    if posts.len() > 0 {
        let d = posts.drop_last();
        law_manual_picks_clean(d, post_id, include_private, limit);
        lemma_picks_bounded(d, post_id, include_private, limit);
        let prev = manual_picks(d, post_id, include_private, limit);
        let r = manual_picks(posts, post_id, include_private, limit);
        assert(ids_at(posts, prev) =~= ids_at(d, prev));
        assert forall|k: int| 0 <= k < prev.len() implies posts[#[trigger] prev[k]] == d[prev[k]] by {}
        if r != prev {
            let i = posts.len() - 1;
            assert(r == prev.push(i));
            assert(ids_at(posts, r) =~= ids_at(posts, prev).push(posts[i].id));
            assert forall|k: int| 0 <= k < r.len() implies {
                let p = posts[#[trigger] r[k]];
                p.published() && (include_private || !p.private()) && p.id != post_id
            } by {
                if k < prev.len() {
                    assert(r[k] == prev[k]);
                }
            }
            assert forall|a: int, b: int| 0 <= a < b < r.len() implies ids_at(posts, r)[a] != ids_at(
                posts,
                r,
            )[b] by {
                if b == prev.len() {
                    assert(ids_at(posts, prev)[a] == ids_at(posts, r)[a]);
                    assert(ids_at(posts, prev).contains(ids_at(posts, r)[a]));
                } else {
                    assert(ids_at(posts, r)[a] == ids_at(d, prev)[a]);
                    assert(ids_at(posts, r)[b] == ids_at(d, prev)[b]);
                }
            }
        } else {
            assert forall|k: int| 0 <= k < r.len() implies {
                let p = posts[#[trigger] r[k]];
                p.published() && (include_private || !p.private()) && p.id != post_id
            } by {
                assert(r[k] == prev[k]);
            }
            assert forall|a: int, b: int| 0 <= a < b < r.len() implies ids_at(posts, r)[a] != ids_at(
                posts,
                r,
            )[b] by {
                assert(ids_at(posts, r)[a] == ids_at(d, prev)[a]);
                assert(ids_at(posts, r)[b] == ids_at(d, prev)[b]);
            }
        }
    }
}

} // verus!
