//! The plan of one run: what to download, and what is there already.

use super::order::{
    is_ordered, lemma_newest_first_is_ordered, lemma_newest_first_is_permutation,
    lemma_newest_first_keeps_ties, newest_first, place_episode, ranked_like,
};
use super::output::OutputState;
use crate::feed::Episode;
use crate::progress::{ProgressEvent, ProgressEventView};
use vstd::string::StringExecFns;
use vstd::prelude::*;

verus! {

/// Plan for a synchronisation: what to download, and what is there already.
#[derive(Debug, Clone)]
pub struct SyncPlan {
    pub to_download: Vec<Episode>,
    pub already_present: Vec<Episode>,
    pub total_episodes: usize,
}

impl SyncPlan {
    /// The summary of the parsed feed to report: the podcast's title, the
    /// number of episodes in the feed, and the number of those that are
    /// new.
    pub fn summary_event(&self, podcast_title: &str) -> (event: ProgressEvent)
        ensures
            event@ == (ProgressEventView::FeedParsed {
                podcast_title: podcast_title@,
                total_episodes: self.total_episodes,
                new_episodes: self.to_download@.len() as usize,
            }),
    {
        ProgressEvent::FeedParsed {
            podcast_title: String::from_str(podcast_title),
            total_episodes: self.total_episodes,
            new_episodes: self.to_download.len(),
        }
    }
}

/// The episodes of `items` that `state` already holds, in feed order.
pub open spec fn present_episodes(items: Seq<Episode>, state: OutputState) -> Seq<Episode> {
    items.filter(|e: Episode| state.has_episode(e))
}

/// The episodes of `items` that `state` does not hold, in feed order.
pub open spec fn missing_episodes(items: Seq<Episode>, state: OutputState) -> Seq<Episode> {
    items.filter(|e: Episode| !state.has_episode(e))
}

/// Filtering one element more either appends that element or changes nothing.
proof fn lemma_filter_next<A>(s: Seq<A>, pred: spec_fn(A) -> bool, i: int)
    requires
        0 <= i < s.len(),
    ensures
        s.take(i + 1).filter(pred) == if pred(s[i]) {
            s.take(i).filter(pred).push(s[i])
        } else {
            s.take(i).filter(pred)
        },
{
    reveal(Seq::filter);
    assert(s.take(i + 1).drop_last() =~= s.take(i));
}

/// Creates a sync plan by comparing the feed's episodes against the output
/// state.
///
/// An episode is already present if and only if it carries an identity that
/// `state` holds; every other episode is to be downloaded. The episodes to
/// download are ordered newest first, the undated ones last, and episodes of
/// equal rank keep the order of the feed: the download list holds exactly
/// the missing episodes, none of them stands behind one that it has to
/// stand before, and those of any one rank stand as the feed has them.
pub fn create_sync_plan(episodes: Vec<Episode>, state: &OutputState) -> (plan: SyncPlan)
    ensures
        plan.total_episodes == episodes@.len(),
        plan.already_present@ == present_episodes(episodes@, *state),
        plan.to_download@ == newest_first(missing_episodes(episodes@, *state)),
        plan.to_download@.to_multiset() == missing_episodes(episodes@, *state).to_multiset(),
        is_ordered(plan.to_download@),
        forall|x: Episode|
            plan.to_download@.filter(#[trigger] ranked_like(x)) == missing_episodes(
                episodes@,
                *state,
            ).filter(ranked_like(x)),
        forall|i: int|
            0 <= i < episodes@.len() && (#[trigger] episodes@[i]).guid is None
                ==> plan.to_download@.contains(episodes@[i]),
{
    let total_episodes = episodes.len();
    let ghost all = episodes@;
    let ghost missing = |e: Episode| !state.has_episode(e);
    let ghost present = |e: Episode| state.has_episode(e);
    let mut to_download: Vec<Episode> = Vec::new();
    let mut already_present: Vec<Episode> = Vec::new();
    proof {
        reveal(Seq::filter);
        assert(all.take(0).filter(missing) =~= Seq::<Episode>::empty());
        assert(all.take(0).filter(present) =~= Seq::<Episode>::empty());
    }
    for episode in it: episodes
        invariant
            it.seq() == all,
            missing == (|e: Episode| !state.has_episode(e)),
            present == (|e: Episode| state.has_episode(e)),
            already_present@ == all.take(it.index()).filter(present),
            to_download@ == newest_first(all.take(it.index()).filter(missing)),
    {
        proof {
            lemma_filter_next(all, missing, it.index());
            lemma_filter_next(all, present, it.index());
        }
        if state.is_downloaded(&episode) {
            already_present.push(episode);
        } else {
            proof {
                let before = all.take(it.index()).filter(missing);
                assert(before.push(episode).drop_last() =~= before);
            }
            place_episode(&mut to_download, episode);
        }
    }
    assert(all.take(all.len() as int) =~= all);
    proof {
        let missing = missing_episodes(all, *state);
        lemma_newest_first_is_permutation(missing);
        lemma_newest_first_is_ordered(missing);
        assert forall|x: Episode|
            newest_first(missing).filter(#[trigger] ranked_like(x)) == missing.filter(
                ranked_like(x),
            ) by {
            lemma_newest_first_keeps_ties(missing, x);
        }
        assert forall|i: int|
            0 <= i < all.len() && (#[trigger] all[i]).guid is None implies newest_first(
            missing,
        ).contains(all[i]) by {
            lemma_unidentified_is_planned(all, *state, i);
        }
    }
    SyncPlan { to_download, already_present, total_episodes }
}

/// The test for episodes that carry no identity.
pub open spec fn unidentified() -> spec_fn(Episode) -> bool {
    |e: Episode| e.guid is None
}

/// Two filters that agree on every element of `s` leave the same.
proof fn lemma_filter_agree<A>(s: Seq<A>, p: spec_fn(A) -> bool, q: spec_fn(A) -> bool)
    requires
        forall|i: int| 0 <= i < s.len() ==> p(#[trigger] s[i]) == q(s[i]),
    ensures
        s.filter(p) == s.filter(q),
    decreases s.len(),
{
    reveal(Seq::filter);
    if s.len() > 0 {
        let init = s.drop_last();
        assert forall|i: int| 0 <= i < init.len() implies p(#[trigger] init[i]) == q(init[i]) by {
            assert(init[i] == s[i]);
        }
        lemma_filter_agree(init, p, q);
    }
}

/// An episode without an identity is planned for download on every run,
/// whatever the output directory holds, and is never taken as present.
pub proof fn lemma_unidentified_is_planned(items: Seq<Episode>, state: OutputState, i: int)
    requires
        0 <= i < items.len(),
        items[i].guid is None,
    ensures
        newest_first(missing_episodes(items, state)).contains(items[i]),
        !present_episodes(items, state).contains(items[i]),
{
    broadcast use vstd::seq_lib::group_to_multiset_ensures;

    let missing = missing_episodes(items, state);
    items.lemma_filter_contains(|e: Episode| !state.has_episode(e), i);
    lemma_newest_first_is_permutation(missing);
    assert(missing.to_multiset().count(items[i]) > 0);
    assert(newest_first(missing).to_multiset().count(items[i]) > 0);
    let present = present_episodes(items, state);
    if present.contains(items[i]) {
        let k = choose|k: int| 0 <= k < present.len() && present[k] == items[i];
        items.lemma_filter_pred(|e: Episode| state.has_episode(e), k);
    }
}

/// What a second run plans. If `second` holds every identity that `first`
/// held and that of every episode which the first plan downloaded, the
/// second plan downloads exactly the episodes without an identity, and
/// takes every other episode as present.
pub proof fn lemma_second_plan(items: Seq<Episode>, first: OutputState, second: OutputState)
    requires
        first.identities().subset_of(second.identities()),
        forall|k: int|
            0 <= k < newest_first(missing_episodes(items, first)).len() ==> (
            #[trigger] newest_first(missing_episodes(items, first))[k]).guid is Some
                ==> second.has_episode(newest_first(missing_episodes(items, first))[k]),
    ensures
        missing_episodes(items, second) == items.filter(unidentified()),
{
    broadcast use vstd::seq_lib::group_to_multiset_ensures;

    let missing = missing_episodes(items, first);
    let plan = newest_first(missing);
    lemma_newest_first_is_permutation(missing);
    assert forall|i: int| 0 <= i < items.len() implies !second.has_episode(#[trigger] items[i])
        == unidentified()(items[i]) by {
        let e = items[i];
        if e.guid is Some {
            if first.has_episode(e) {
                assert(second.identities().contains(e.identity()->0));
            } else {
                items.lemma_filter_contains(|e: Episode| !first.has_episode(e), i);
                assert(missing.to_multiset().count(e) > 0);
                assert(plan.to_multiset().count(e) > 0);
                assert(plan.contains(e));
                let k = choose|k: int| 0 <= k < plan.len() && plan[k] == e;
                assert(second.has_episode(plan[k]));
            }
        }
    }
    lemma_filter_agree(items, |e: Episode| !second.has_episode(e), unidentified());
}

/// Planning is idempotent. Where every episode carries an identity, a second
/// run over the same feed, made after the first run's downloads were
/// committed, downloads nothing and takes every episode as present.
pub proof fn lemma_second_plan_downloads_nothing(
    items: Seq<Episode>,
    first: OutputState,
    second: OutputState,
)
    requires
        forall|i: int| 0 <= i < items.len() ==> (#[trigger] items[i]).guid is Some,
        first.identities().subset_of(second.identities()),
        forall|k: int|
            0 <= k < newest_first(missing_episodes(items, first)).len() ==> second.has_episode(
                #[trigger] newest_first(missing_episodes(items, first))[k],
            ),
    ensures
        newest_first(missing_episodes(items, second)) == Seq::<Episode>::empty(),
        present_episodes(items, second) == items,
{
    lemma_second_plan(items, first, second);
    assert forall|i: int| 0 <= i < items.len() implies !unidentified()(#[trigger] items[i]) by {}
    super::order::lemma_filter_none(items, unidentified());
    assert forall|i: int| 0 <= i < items.len() implies second.has_episode(#[trigger] items[i]) by {
        if !second.has_episode(items[i]) {
            items.lemma_filter_contains(|e: Episode| !second.has_episode(e), i);
        }
    }
    super::order::lemma_filter_all(items, |e: Episode| second.has_episode(e));
}

} // verus!
