//! The order in which episodes are downloaded.

use crate::feed::Episode;
use vstd::prelude::*;

verus! {

/// Whether `a` has to stand before `b` in the download order: `a` is dated
/// and `b` is either undated or strictly older.
pub open spec fn precedes(a: Episode, b: Episode) -> bool {
    match (a.pub_date, b.pub_date) {
        (Some(x), Some(y)) => x.is_later_than(y),
        (Some(_), None) => true,
        _ => false,
    }
}

/// `sorted` with `e` put in from the back: `e` passes every episode that it
/// has to stand before and stops behind the first one that it need not pass.
pub open spec fn place(sorted: Seq<Episode>, e: Episode) -> Seq<Episode>
    decreases sorted.len(),
{
    if sorted.len() > 0 && precedes(e, sorted.last()) {
        place(sorted.drop_last(), e).push(sorted.last())
    } else {
        sorted.push(e)
    }
}

/// The episodes in download order: newest first, the undated ones last, and
/// episodes of equal rank in the order in which `items` has them.
pub open spec fn newest_first(items: Seq<Episode>) -> Seq<Episode>
    decreases items.len(),
{
    if items.len() == 0 {
        items
    } else {
        place(newest_first(items.drop_last()), items.last())
    }
}

/// Decides [`precedes`].
pub fn runs_before(a: &Episode, b: &Episode) -> (r: bool)
    ensures
        r == precedes(*a, *b),
{
    match (&a.pub_date, &b.pub_date) {
        (Some(x), Some(y)) => x.later_than(y),
        (Some(_), None) => true,
        _ => false,
    }
}

/// Puts one episode into a list that is in download order.
pub fn place_episode(sorted: &mut Vec<Episode>, e: Episode)
    ensures
        final(sorted)@ == place(old(sorted)@, e),
{
    let mut pos: usize = sorted.len();
    assert(sorted@.take(pos as int) =~= sorted@);
    assert(place(sorted@.take(pos as int), e) + sorted@.skip(pos as int) =~= place(sorted@, e));
    while pos > 0 && runs_before(&e, &sorted[pos - 1])
        invariant
            pos <= sorted.len(),
            sorted@ == old(sorted)@,
            place(old(sorted)@, e) == place(sorted@.take(pos as int), e) + sorted@.skip(
                pos as int,
            ),
        decreases pos,
    {
        proof {
            let head = sorted@.take(pos as int);
            assert(head.last() == sorted@[pos - 1]);
            assert(head.drop_last() =~= sorted@.take(pos - 1));
            assert(place(head, e) == place(sorted@.take(pos - 1), e).push(sorted@[pos - 1]));
            assert(place(sorted@.take(pos - 1), e).push(sorted@[pos - 1]) + sorted@.skip(
                pos as int,
            ) =~= place(sorted@.take(pos - 1), e) + sorted@.skip(pos - 1));
        }
        pos -= 1;
    }
    proof {
        let head = sorted@.take(pos as int);
        if pos > 0 {
            assert(head.last() == sorted@[pos - 1]);
        }
        assert(place(head, e) == head.push(e));
        assert(sorted@.insert(pos as int, e) =~= head.push(e) + sorted@.skip(pos as int));
    }
    sorted.insert(pos, e);
}

/// Whether neither episode has to stand before the other: both are undated,
/// or both are dated with the same instant.
pub open spec fn same_rank(a: Episode, b: Episode) -> bool {
    !precedes(a, b) && !precedes(b, a)
}

/// Whether no episode of `s` stands behind one that it has to stand before.
pub open spec fn is_ordered(s: Seq<Episode>) -> bool {
    forall|i: int, j: int| 0 <= i < j < s.len() ==> !precedes(#[trigger] s[j], #[trigger] s[i])
}

/// The test for episodes of the rank of `x`.
pub open spec fn ranked_like(x: Episode) -> spec_fn(Episode) -> bool {
    |e: Episode| same_rank(e, x)
}

/// The test for episodes that carry a publication date.
pub open spec fn dated() -> spec_fn(Episode) -> bool {
    |e: Episode| e.pub_date is Some
}

/// The test for episodes that carry no publication date.
pub open spec fn undated() -> spec_fn(Episode) -> bool {
    |e: Episode| e.pub_date is None
}

/// The index at which [`place`] puts `e` into `sorted`.
pub open spec fn landing(sorted: Seq<Episode>, e: Episode) -> int
    decreases sorted.len(),
{
    if sorted.len() > 0 && precedes(e, sorted.last()) {
        landing(sorted.drop_last(), e)
    } else {
        sorted.len() as int
    }
}

/// [`place`] inserts `e` at [`landing`]: behind it stand exactly the episodes
/// at the end of `sorted` that `e` has to stand before.
pub proof fn lemma_place_inserts(sorted: Seq<Episode>, e: Episode)
    ensures
        0 <= landing(sorted, e) <= sorted.len(),
        place(sorted, e) == sorted.insert(landing(sorted, e), e),
        forall|i: int| landing(sorted, e) <= i < sorted.len() ==> precedes(e, #[trigger] sorted[i]),
        landing(sorted, e) > 0 ==> !precedes(e, sorted[landing(sorted, e) - 1]),
    decreases sorted.len(),
{
    if sorted.len() > 0 && precedes(e, sorted.last()) {
        let init = sorted.drop_last();
        lemma_place_inserts(init, e);
        let k = landing(init, e);
        assert(init.insert(k, e).push(sorted.last()) =~= sorted.insert(k, e));
        assert forall|i: int| k <= i < sorted.len() implies precedes(e, #[trigger] sorted[i]) by {
            if i < init.len() {
                assert(sorted[i] == init[i]);
            }
        }
        if k > 0 {
            assert(init[k - 1] == sorted[k - 1]);
        }
    } else {
        assert(sorted.push(e) =~= sorted.insert(sorted.len() as int, e));
    }
}

/// Placing an episode adds it and takes nothing away.
pub proof fn lemma_place_is_permutation(sorted: Seq<Episode>, e: Episode)
    ensures
        place(sorted, e).to_multiset() == sorted.to_multiset().insert(e),
{
    lemma_place_inserts(sorted, e);
    vstd::seq_lib::to_multiset_insert(sorted, landing(sorted, e), e);
}

/// Placing an episode into an ordered list leaves it ordered.
pub proof fn lemma_place_keeps_order(sorted: Seq<Episode>, e: Episode)
    requires
        is_ordered(sorted),
    ensures
        is_ordered(place(sorted, e)),
{
    lemma_place_inserts(sorted, e);
    let k = landing(sorted, e);
    let out = sorted.insert(k, e);
    assert forall|i: int, j: int| 0 <= i < j < out.len() implies !precedes(
        #[trigger] out[j],
        #[trigger] out[i],
    ) by {
        if j < k {
            assert(out[i] == sorted[i] && out[j] == sorted[j]);
        } else if j == k {
            // out[j] is e, out[i] stands before the landing
            assert(out[i] == sorted[i]);
            assert(!precedes(e, sorted[k - 1]));
            if i < k - 1 {
                assert(!precedes(sorted[k - 1], sorted[i]));
            }
        } else if i < k {
            assert(out[i] == sorted[i] && out[j] == sorted[j - 1]);
        } else if i == k {
            assert(out[j] == sorted[j - 1]);
            assert(precedes(e, sorted[j - 1]));
        } else {
            assert(out[i] == sorted[i - 1] && out[j] == sorted[j - 1]);
        }
    }
}

/// A filter that no element passes leaves nothing.
pub(crate) proof fn lemma_filter_none<A>(s: Seq<A>, pred: spec_fn(A) -> bool)
    requires
        forall|i: int| 0 <= i < s.len() ==> !pred(#[trigger] s[i]),
    ensures
        s.filter(pred) == Seq::<A>::empty(),
    decreases s.len(),
{
    reveal(Seq::filter);
    if s.len() > 0 {
        let init = s.drop_last();
        assert forall|i: int| 0 <= i < init.len() implies !pred(#[trigger] init[i]) by {
            assert(init[i] == s[i]);
        }
        lemma_filter_none(init, pred);
    }
}

/// A filter that every element passes leaves everything.
pub(crate) proof fn lemma_filter_all<A>(s: Seq<A>, pred: spec_fn(A) -> bool)
    requires
        forall|i: int| 0 <= i < s.len() ==> pred(#[trigger] s[i]),
    ensures
        s.filter(pred) == s,
    decreases s.len(),
{
    reveal(Seq::filter);
    if s.len() > 0 {
        lemma_filter_all(s.drop_last(), pred);
        assert(s.drop_last().push(s.last()) =~= s);
    }
}

/// Filtering a list with one element put in: the element appears at its
/// place among the others if it passes, and not at all if it does not.
proof fn lemma_filter_insert<A>(s: Seq<A>, k: int, e: A, pred: spec_fn(A) -> bool)
    requires
        0 <= k <= s.len(),
    ensures
        s.insert(k, e).filter(pred) == if pred(e) {
            s.take(k).filter(pred).push(e) + s.skip(k).filter(pred)
        } else {
            s.filter(pred)
        },
        s.filter(pred) == s.take(k).filter(pred) + s.skip(k).filter(pred),
{
    reveal(Seq::filter);
    let head = s.take(k);
    let tail = s.skip(k);
    assert(s =~= head + tail);
    assert(s.insert(k, e) =~= head.push(e) + tail);
    Seq::filter_distributes_over_add(head, tail, pred);
    Seq::filter_distributes_over_add(head.push(e), tail, pred);
    assert(head.push(e).drop_last() =~= head);
}

/// Placing an episode does not disturb the episodes of any one rank: among
/// them the new one comes last.
pub proof fn lemma_place_keeps_ties(sorted: Seq<Episode>, e: Episode, x: Episode)
    ensures
        place(sorted, e).filter(ranked_like(x)) == if same_rank(e, x) {
            sorted.filter(ranked_like(x)).push(e)
        } else {
            sorted.filter(ranked_like(x))
        },
{
    lemma_place_inserts(sorted, e);
    let k = landing(sorted, e);
    let pred = ranked_like(x);
    lemma_filter_insert(sorted, k, e, pred);
    if same_rank(e, x) {
        let tail = sorted.skip(k);
        assert forall|i: int| 0 <= i < tail.len() implies !pred(#[trigger] tail[i]) by {
            assert(tail[i] == sorted[k + i]);
            assert(precedes(e, sorted[k + i]));
        }
        lemma_filter_none(tail, pred);
        assert(sorted.take(k).filter(pred).push(e) + Seq::<Episode>::empty()
            =~= sorted.take(k).filter(pred).push(e));
        assert(sorted.take(k).filter(pred) + Seq::<Episode>::empty() =~= sorted.take(k).filter(
            pred,
        ));
    }
}

/// The download order holds every episode of `items` as often as `items`
/// does: nothing is lost and nothing is added.
pub proof fn lemma_newest_first_is_permutation(items: Seq<Episode>)
    ensures
        newest_first(items).to_multiset() == items.to_multiset(),
        newest_first(items).len() == items.len(),
    decreases items.len(),
{
    if items.len() > 0 {
        let init = items.drop_last();
        lemma_newest_first_is_permutation(init);
        lemma_place_is_permutation(newest_first(init), items.last());
        lemma_place_inserts(newest_first(init), items.last());
        vstd::seq_lib::to_multiset_build(init, items.last());
        assert(init.push(items.last()) =~= items);
    }
}

/// In the download order no episode stands behind one that it has to stand
/// before: dated episodes come before undated ones, and of two dated
/// episodes the later one never stands behind the earlier one.
pub proof fn lemma_newest_first_is_ordered(items: Seq<Episode>)
    ensures
        is_ordered(newest_first(items)),
    decreases items.len(),
{
    if items.len() > 0 {
        lemma_newest_first_is_ordered(items.drop_last());
        lemma_place_keeps_order(newest_first(items.drop_last()), items.last());
    }
}

/// The download order is stable: the episodes of any one rank stand in it in
/// the order in which `items` has them.
pub proof fn lemma_newest_first_keeps_ties(items: Seq<Episode>, x: Episode)
    ensures
        newest_first(items).filter(ranked_like(x)) == items.filter(ranked_like(x)),
    decreases items.len(),
{
    reveal(Seq::filter);
    if items.len() > 0 {
        lemma_newest_first_keeps_ties(items.drop_last(), x);
        lemma_place_keeps_ties(newest_first(items.drop_last()), items.last(), x);
    }
}

/// An episode that has to stand before every episode of `tail` is placed
/// without touching `tail`.
proof fn lemma_place_skips_tail(head: Seq<Episode>, tail: Seq<Episode>, e: Episode)
    requires
        forall|i: int| 0 <= i < tail.len() ==> precedes(e, #[trigger] tail[i]),
    ensures
        place(head + tail, e) == place(head, e) + tail,
    decreases tail.len(),
{
    if tail.len() == 0 {
        assert(head + tail =~= head);
        assert(place(head, e) + tail =~= place(head, e));
    } else {
        let all = head + tail;
        assert(all.last() == tail.last());
        assert(all.drop_last() =~= head + tail.drop_last());
        lemma_place_skips_tail(head, tail.drop_last(), e);
        assert((place(head, e) + tail.drop_last()).push(tail.last()) =~= place(head, e) + tail);
    }
}

/// The undated episodes are the end of the download order, in the order in
/// which `items` has them; before them stand the dated episodes in download
/// order.
pub proof fn lemma_undated_come_last(items: Seq<Episode>)
    ensures
        newest_first(items) == newest_first(items.filter(dated())) + items.filter(undated()),
    decreases items.len(),
{
    reveal(Seq::filter);
    if items.len() == 0 {
        assert(newest_first(items) =~= newest_first(items.filter(dated())) + items.filter(
            undated(),
        ));
    } else {
        let init = items.drop_last();
        let e = items.last();
        lemma_undated_come_last(init);
        let head = newest_first(init.filter(dated()));
        let tail = init.filter(undated());
        if e.pub_date is Some {
            assert forall|i: int| 0 <= i < tail.len() implies precedes(e, #[trigger] tail[i]) by {
                init.lemma_filter_pred(undated(), i);
            }
            lemma_place_skips_tail(head, tail, e);
            assert(init.filter(dated()).push(e).drop_last() =~= init.filter(dated()));
        } else {
            assert(place(head + tail, e) == (head + tail).push(e));
            assert((head + tail).push(e) =~= head + tail.push(e));
        }
    }
}

/// Among dated episodes the download order is descending: an episode's
/// instant is never later than that of an episode before it, and where no
/// two episodes share an instant it is strictly earlier.
pub proof fn lemma_dated_descend(items: Seq<Episode>, i: int, j: int)
    requires
        0 <= i < j < items.len(),
        newest_first(items)[i].pub_date is Some,
        newest_first(items)[j].pub_date is Some,
    ensures
        !newest_first(items)[j].pub_date->0.is_later_than(newest_first(items)[i].pub_date->0),
        !newest_first(items)[j].pub_date->0.same_instant(newest_first(items)[i].pub_date->0)
            ==> newest_first(items)[i].pub_date->0.is_later_than(
            newest_first(items)[j].pub_date->0,
        ),
{
    lemma_newest_first_is_permutation(items);
    lemma_newest_first_is_ordered(items);
    let out = newest_first(items);
    assert(!precedes(out[j], out[i]));
}

/// The index of the last element of `s` that passes `pred`; `-1` if none
/// does.
spec fn last_match<A>(s: Seq<A>, pred: spec_fn(A) -> bool) -> int
    decreases s.len(),
{
    if s.len() == 0 {
        -1
    } else if pred(s.last()) {
        s.len() - 1
    } else {
        last_match(s.drop_last(), pred)
    }
}

/// Where a filter leaves something, the last element that it leaves is the
/// last element that passes.
proof fn lemma_last_match<A>(s: Seq<A>, pred: spec_fn(A) -> bool)
    requires
        s.filter(pred).len() > 0,
    ensures
        0 <= last_match(s, pred) < s.len(),
        pred(s[last_match(s, pred)]),
        s[last_match(s, pred)] == s.filter(pred).last(),
        forall|q: int| last_match(s, pred) < q < s.len() ==> !pred(#[trigger] s[q]),
    decreases s.len(),
{
    reveal(Seq::filter);
    if s.len() > 0 && !pred(s.last()) {
        let init = s.drop_last();
        lemma_last_match(init, pred);
        assert forall|q: int| last_match(s, pred) < q < s.len() implies !pred(#[trigger] s[q]) by {
            if q < init.len() {
                assert(init[q] == s[q]);
            }
        }
    }
}

/// Where [`place`] puts an episode: behind the last episode that it need
/// not pass.
proof fn lemma_landing(sorted: Seq<Episode>, e: Episode, p: int)
    requires
        0 <= p <= sorted.len(),
        forall|i: int| p <= i < sorted.len() ==> precedes(e, #[trigger] sorted[i]),
        p > 0 ==> !precedes(e, sorted[p - 1]),
    ensures
        landing(sorted, e) == p,
    decreases sorted.len() - p,
{
    if p < sorted.len() {
        let init = sorted.drop_last();
        assert(precedes(e, sorted[sorted.len() - 1]));
        assert forall|i: int| p <= i < init.len() implies precedes(e, #[trigger] init[i]) by {
            assert(init[i] == sorted[i]);
        }
        if p > 0 {
            assert(init[p - 1] == sorted[p - 1]);
        }
        lemma_landing(init, e, p);
    }
}

/// The download order is determined by what it promises. A list in which
/// no episode stands behind one that it has to stand before, and in which
/// the episodes of every rank are those of `items` in the order of
/// `items`, is the download order of `items`.
pub proof fn lemma_download_order_is_unique(items: Seq<Episode>, out: Seq<Episode>)
    requires
        is_ordered(out),
        forall|x: Episode| out.filter(#[trigger] ranked_like(x)) == items.filter(ranked_like(x)),
    ensures
        out == newest_first(items),
    decreases items.len(),
{
    reveal(Seq::filter);
    if items.len() == 0 {
        if out.len() > 0 {
            out.lemma_filter_contains(ranked_like(out[0]), 0);
            assert(items.filter(ranked_like(out[0])).len() == 0);
        }
        assert(out =~= newest_first(items));
    } else {
        let init = items.drop_last();
        let e = items.last();
        let like_e = ranked_like(e);
        assert(items.filter(like_e) == init.filter(like_e).push(e));
        assert(out.filter(like_e).len() > 0);
        lemma_last_match(out, like_e);
        let p = last_match(out, like_e);
        assert(out[p] == e);
        let rest = out.remove(p);
        assert(rest.insert(p, e) =~= out);
        // What is left when `e` is taken out is ordered and keeps ties.
        assert forall|i: int, j: int| 0 <= i < j < rest.len() implies !precedes(
            #[trigger] rest[j],
            #[trigger] rest[i],
        ) by {
            let a = if i < p {
                i
            } else {
                i + 1
            };
            let b = if j < p {
                j
            } else {
                j + 1
            };
            assert(rest[i] == out[a] && rest[j] == out[b]);
        }
        assert forall|x: Episode| rest.filter(#[trigger] ranked_like(x)) == init.filter(
            ranked_like(x),
        ) by {
            let like_x = ranked_like(x);
            lemma_filter_insert(rest, p, e, like_x);
            assert(out.filter(like_x) == items.filter(like_x));
            if same_rank(e, x) {
                let tail = rest.skip(p);
                assert forall|i: int| 0 <= i < tail.len() implies !like_x(#[trigger] tail[i]) by {
                    assert(tail[i] == out[p + 1 + i]);
                    assert(!like_e(out[p + 1 + i]));
                }
                lemma_filter_none(tail, like_x);
                let head = rest.take(p).filter(like_x);
                assert(head + Seq::<Episode>::empty() =~= head);
                assert(head.push(e) + Seq::<Episode>::empty() =~= head.push(e));
                assert(head.push(e).drop_last() =~= head);
                assert(init.filter(like_x).push(e).drop_last() =~= init.filter(like_x));
            }
        }
        lemma_download_order_is_unique(init, rest);
        // And `e` stands where the download order puts it.
        assert forall|i: int| p <= i < rest.len() implies precedes(e, #[trigger] rest[i]) by {
            assert(rest[i] == out[i + 1]);
            assert(!like_e(out[i + 1]));
            assert(!precedes(out[i + 1], out[p]));
        }
        if p > 0 {
            assert(rest[p - 1] == out[p - 1]);
            assert(!precedes(out[p], out[p - 1]));
        }
        lemma_landing(rest, e, p);
        lemma_place_inserts(rest, e);
    }
}

} // verus!
