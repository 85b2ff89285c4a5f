//! The download scheduler.
//!
//! A run downloads the planned episodes under a bound on how many run at
//! once. The bound is kept by a pool of slot tokens, the integers
//! `0..max_concurrent`: a download takes the token at the front of the pool
//! before it starts, carries it as its slot while it runs, and puts it to
//! the back of the pool when it ends. Downloads start in queue order and end
//! in any order; a failure is recorded against its episode and leaves the
//! others alone.
//!
//! The scheduler only decides. Its caller asks [`Scheduler::next_step`] what
//! to do, runs the downloads, and tells [`Scheduler::complete`] how each one
//! ended.

use crate::episode::DownloadContext;
use crate::error::{DownloadError, MetadataError, SyncError};
use crate::feed::Episode;
use crate::progress::{ProgressEvent, ProgressEventView};
use crate::state::order::newest_first;
use crate::state::plan::{
    lemma_second_plan_downloads_nothing, missing_episodes, present_episodes,
};
use crate::state::{OutputState, SyncPlan};
use crate::text::push_text;
use std::collections::VecDeque;
use vstd::prelude::*;
use vstd::string::StringExecFns;

verus! {

/// Options for podcast synchronisation.
#[derive(Debug, Clone)]
pub struct SyncOptions {
    /// Maximum number of episodes to download (`None`: all).
    pub limit: Option<usize>,
    /// Maximum number of concurrent downloads; at least 1.
    pub max_concurrent: usize,
    /// Whether to go on starting downloads after one has failed.
    pub continue_on_error: bool,
}

impl Default for SyncOptions {
    fn default() -> (r: Self)
        ensures
            r.limit is None,
            r.max_concurrent == 3,
            r.continue_on_error,
    {
        SyncOptions { limit: None, max_concurrent: 3, continue_on_error: true }
    }
}

/// Result of a sync operation.
#[derive(Debug, Clone)]
pub struct SyncResult {
    /// Number of episodes successfully downloaded.
    pub downloaded: usize,
    /// Number of episodes skipped because they were already present.
    pub skipped: usize,
    /// Number of episodes that failed to download.
    pub failed: usize,
    /// Title and error message of each failed episode.
    pub failed_episodes: Vec<(String, String)>,
}

/// The texts of a list of failures.
pub open spec fn failure_texts(list: Seq<(String, String)>) -> Seq<(Seq<char>, Seq<char>)> {
    Seq::new(list.len(), |i: int| (list[i].0@, list[i].1@))
}

/// How one download ended.
#[derive(Debug, Clone)]
pub enum UnitOutcome {
    /// The payload and its sidecar were written.
    Downloaded,
    /// The transfer failed.
    TransferFailed(DownloadError),
    /// The payload was committed, but its sidecar could not be written.
    MetadataFailed(MetadataError),
}

impl UnitOutcome {
    /// The message recorded against the episode, if the download failed.
    pub open spec fn failure(self) -> Option<Seq<char>> {
        match self {
            UnitOutcome::Downloaded => None,
            UnitOutcome::TransferFailed(e) => Some(e.message_text()),
            UnitOutcome::MetadataFailed(e) => Some(e.message_text()),
        }
    }

    /// The message reported to the progress reporter, if the download
    /// failed.
    pub open spec fn reported(self) -> Option<Seq<char>> {
        match self {
            UnitOutcome::Downloaded => None,
            UnitOutcome::TransferFailed(e) => Some(e.message_text()),
            UnitOutcome::MetadataFailed(e) => Some(
                "Failed to write metadata: "@ + e.message_text(),
            ),
        }
    }
}

/// What the caller of the scheduler has to do next.
#[derive(Debug, Clone, Copy, PartialEq, Eq, Structural)]
pub enum SchedulerStep {
    /// Start the download of the episode at `episode_index` in the slot
    /// `download_id`, then ask again.
    Launch(DownloadContext),
    /// Wait until a running download ends, report it, then ask again.
    Wait,
    /// Nothing runs and nothing is left to start: take the result.
    Finish,
}

/// The state of a scheduler.
pub struct SchedulerView {
    /// The episodes to download, in download order.
    pub queue: Seq<Episode>,
    /// How many episodes of the queue were started.
    pub started: nat,
    /// The slot tokens in the pool, the next one to be taken first.
    pub free_slots: Seq<usize>,
    /// The downloads that run, in the order in which they started.
    pub running: Seq<DownloadContext>,
    pub max_concurrent: nat,
    pub continue_on_error: bool,
    pub downloaded: nat,
    pub failed: nat,
    /// Title and error message of each failed episode, in the order in
    /// which the failures were reported.
    pub failed_episodes: Seq<(Seq<char>, Seq<char>)>,
    pub skipped: nat,
}

impl SchedulerView {
    /// The slots that running downloads hold.
    pub open spec fn running_slots(self) -> Seq<usize> {
        self.running.map_values(|c: DownloadContext| c.download_id)
    }

    /// Every token is either in the pool or held by exactly one running
    /// download, the counters add up, and every running download belongs to
    /// an episode that was started.
    pub open spec fn wf(self) -> bool {
        &&& self.max_concurrent > 0
        &&& self.max_concurrent <= usize::MAX
        &&& self.queue.len() <= usize::MAX
        &&& self.skipped <= usize::MAX
        &&& self.started <= self.queue.len()
        &&& self.free_slots.len() + self.running.len() == self.max_concurrent
        &&& (self.free_slots + self.running_slots()).no_duplicates()
        &&& forall|i: int|
            0 <= i < self.free_slots.len() ==> (#[trigger] self.free_slots[i]) < self.max_concurrent
        &&& forall|i: int|
            0 <= i < self.running.len() ==> {
                &&& (#[trigger] self.running[i]).download_id < self.max_concurrent
                &&& self.running[i].episode_index < self.started
                &&& self.running[i].total_to_download == self.queue.len()
            }
        &&& self.downloaded + self.failed + self.running.len() == self.started
        &&& self.failed_episodes.len() == self.failed
    }

    /// Whether no further download is started: a download has failed, and
    /// the run was to stop at the first failure.
    pub open spec fn halted(self) -> bool {
        !self.continue_on_error && self.failed > 0
    }

    /// Whether the next episode of the queue can start now.
    pub open spec fn can_launch(self) -> bool {
        self.started < self.queue.len() && !self.halted() && self.free_slots.len() > 0
    }

    /// The context of the download that starts next.
    pub open spec fn next_context(self) -> DownloadContext {
        DownloadContext {
            download_id: self.free_slots[0],
            episode_index: self.started as usize,
            total_to_download: self.queue.len() as usize,
        }
    }

    /// What is to be done in this state.
    pub open spec fn step(self) -> SchedulerStep {
        if self.can_launch() {
            SchedulerStep::Launch(self.next_context())
        } else if self.running.len() > 0 {
            SchedulerStep::Wait
        } else {
            SchedulerStep::Finish
        }
    }

    /// The state after [`SchedulerView::step`] was handed out: a launch
    /// takes the token at the front of the pool and starts the next episode
    /// of the queue; the other steps change nothing.
    pub open spec fn after_step(self) -> SchedulerView {
        if self.can_launch() {
            SchedulerView {
                started: self.started + 1,
                free_slots: self.free_slots.drop_first(),
                running: self.running.push(self.next_context()),
                ..self
            }
        } else {
            self
        }
    }

    /// Whether a download runs in `slot`.
    pub open spec fn is_running(self, slot: usize) -> bool {
        exists|i: int|
            0 <= i < self.running.len() && (#[trigger] self.running[i]).download_id == slot
    }

    /// The place among the running downloads of the one in `slot`.
    pub open spec fn running_index(self, slot: usize) -> int {
        choose|i: int|
            0 <= i < self.running.len() && (#[trigger] self.running[i]).download_id == slot
    }

    /// The title of the episode that is downloaded in `slot`.
    pub open spec fn title_in(self, slot: usize) -> Seq<char> {
        self.queue[self.running[self.running_index(slot)].episode_index as int].title@
    }

    /// The state after the download in `slot` ended with `outcome`: its
    /// token goes to the back of the pool, and the outcome is counted.
    pub open spec fn after_complete(self, slot: usize, outcome: UnitOutcome) -> SchedulerView {
        let released = SchedulerView {
            free_slots: self.free_slots.push(slot),
            running: self.running.remove(self.running_index(slot)),
            ..self
        };
        match outcome.failure() {
            None => SchedulerView { downloaded: self.downloaded + 1, ..released },
            Some(message) => SchedulerView {
                failed: self.failed + 1,
                failed_episodes: self.failed_episodes.push((self.title_in(slot), message)),
                ..released
            },
        }
    }

    /// What is reported when the download in `slot` ended with `outcome`.
    pub open spec fn completion_event(self, slot: usize, outcome: UnitOutcome) -> Option<
        ProgressEventView,
    > {
        match outcome.reported() {
            None => None,
            Some(error) => Some(
                ProgressEventView::DownloadFailed {
                    download_id: slot,
                    episode_title: self.title_in(slot),
                    error,
                },
            ),
        }
    }

    /// Whether the run is over: nothing runs, and nothing more is started.
    pub open spec fn is_finished(self) -> bool {
        self.running.len() == 0 && (self.started == self.queue.len() || self.halted())
    }

    /// Whether the run as a whole has failed: downloads were to stop at the
    /// first failure, one failed, and none succeeded.
    pub open spec fn all_failed(self) -> bool {
        self.downloaded == 0 && self.failed > 0 && !self.continue_on_error
    }

    /// The state in which a run begins.
    pub open spec fn initial(
        queue: Seq<Episode>,
        skipped: nat,
        max_concurrent: nat,
        continue_on_error: bool,
    ) -> SchedulerView {
        SchedulerView {
            queue,
            started: 0,
            free_slots: Seq::new(max_concurrent, |i: int| i as usize),
            running: Seq::empty(),
            max_concurrent,
            continue_on_error,
            downloaded: 0,
            failed: 0,
            failed_episodes: Seq::empty(),
            skipped,
        }
    }
}

/// The episodes of a plan that a run downloads: all of them, or the first
/// `limit` where a limit is set.
pub open spec fn limited(to_download: Seq<Episode>, limit: Option<usize>) -> Seq<Episode> {
    match limit {
        Some(n) => if n <= to_download.len() {
            to_download.take(n as int)
        } else {
            to_download
        },
        None => to_download,
    }
}

/// The pool while `fresh` of its `max_concurrent` tokens were taken for the
/// first time and `released` were put back since: the tokens that were
/// never taken, in ascending order, and behind them those that were put
/// back, in the order in which they came.
pub open spec fn pool(fresh: nat, max_concurrent: nat, released: Seq<usize>) -> Seq<usize> {
    Seq::new((max_concurrent - fresh) as nat, |i: int| (fresh + i) as usize) + released
}

/// Decides which download starts when, and in which slot, and adds up how
/// the downloads ended.
///
/// The pool is not laid out in full: the tokens that were never taken are
/// known by their number.
pub struct Scheduler {
    queue: Vec<Episode>,
    started: usize,
    fresh: usize,
    released: VecDeque<usize>,
    running: Vec<DownloadContext>,
    max_concurrent: usize,
    continue_on_error: bool,
    downloaded: usize,
    failed: usize,
    failed_episodes: Vec<(String, String)>,
    skipped: usize,
}

impl View for Scheduler {
    type V = SchedulerView;

    closed spec fn view(&self) -> SchedulerView {
        SchedulerView {
            queue: self.queue@,
            started: self.started as nat,
            free_slots: pool(self.fresh as nat, self.max_concurrent as nat, self.released@),
            running: self.running@,
            max_concurrent: self.max_concurrent as nat,
            continue_on_error: self.continue_on_error,
            downloaded: self.downloaded as nat,
            failed: self.failed as nat,
            failed_episodes: failure_texts(self.failed_episodes@),
            skipped: self.skipped as nat,
        }
    }
}

impl Scheduler {
    /// Whether the scheduler's books are in order: its view is well formed,
    /// and no more tokens were taken than there are.
    pub closed spec fn wf(&self) -> bool {
        &&& self@.wf()
        &&& self.fresh <= self.max_concurrent
    }

    /// A scheduler that is in order has a view that is.
    pub proof fn lemma_view_wf(&self)
        requires
            self.wf(),
        ensures
            self@.wf(),
    {
    }

    /// Sets up a run of `plan` under `options`: the queue is the plan's
    /// download list cut to the limit, the pool holds every token, and
    /// nothing has started.
    pub fn new(plan: SyncPlan, options: &SyncOptions) -> (s: Scheduler)
        requires
            options.max_concurrent > 0,
        ensures
            s@ == SchedulerView::initial(
                limited(plan.to_download@, options.limit),
                plan.already_present@.len(),
                options.max_concurrent as nat,
                options.continue_on_error,
            ),
            s.wf(),
            s@.wf(),
    {
        let SyncPlan { to_download, already_present, total_episodes: _ } = plan;
        let mut queue = to_download;
        if let Some(limit) = options.limit {
            queue.truncate(limit);
        }
        let s = Scheduler {
            queue,
            started: 0,
            fresh: 0,
            released: VecDeque::new(),
            running: Vec::new(),
            max_concurrent: options.max_concurrent,
            continue_on_error: options.continue_on_error,
            downloaded: 0,
            failed: 0,
            failed_episodes: Vec::new(),
            skipped: already_present.len(),
        };
        proof {
            assert(s@.failed_episodes =~= Seq::empty());
            assert(s@.free_slots =~= Seq::new(
                options.max_concurrent as nat,
                |i: int| i as usize,
            ));
            assert(s.queue.len() <= usize::MAX);
            lemma_initial_wf(
                s@.queue,
                s@.skipped,
                options.max_concurrent as nat,
                options.continue_on_error,
            );
        }
        s
    }

    /// Hands out the next step and, for a launch, starts the download in
    /// the books.
    pub fn next_step(&mut self) -> (step: SchedulerStep)
        requires
            old(self).wf(),
        ensures
            step == old(self)@.step(),
            final(self)@ == old(self)@.after_step(),
            final(self).wf(),
            final(self)@.wf(),
    {
        let halted = !self.continue_on_error && self.failed > 0;
        let ghost before = self@;
        if self.started < self.queue.len() && !halted && (self.fresh < self.max_concurrent
            || self.released.len() > 0) {
            let slot = if self.fresh < self.max_concurrent {
                let slot = self.fresh;
                self.fresh = self.fresh + 1;
                slot
            } else {
                self.released.pop_front().unwrap()
            };
            proof {
                assert(slot == before.free_slots[0]);
                assert(pool(self.fresh as nat, self.max_concurrent as nat, self.released@)
                    =~= before.free_slots.drop_first());
            }
            let context = DownloadContext {
                download_id: slot,
                episode_index: self.started,
                total_to_download: self.queue.len(),
            };
            self.running.push(context);
            self.started = self.started + 1;
            proof {
                assert(self@ == before.after_step());
                lemma_launch_keeps_wf(before);
            }
            SchedulerStep::Launch(context)
        } else if self.running.len() > 0 {
            SchedulerStep::Wait
        } else {
            SchedulerStep::Finish
        }
    }

    /// Records how the download in `slot` ended. Its token goes back to the
    /// pool; a failure is counted and listed under the episode's title.
    /// Returns the failure event to report, if the download failed.
    pub fn complete(&mut self, slot: usize, outcome: UnitOutcome) -> (event: Option<ProgressEvent>)
        requires
            old(self).wf(),
            old(self)@.is_running(slot),
        ensures
            final(self)@ == old(self)@.after_complete(slot, outcome),
            final(self).wf(),
            final(self)@.wf(),
            (match event {
                Some(e) => Some(e@),
                None => None,
            }) == old(self)@.completion_event(slot, outcome),
    {
        let mut k: usize = 0;
        while k < self.running.len() && self.running[k].download_id != slot
            invariant
                *self == *old(self),
                k <= self.running.len(),
                forall|i: int| 0 <= i < k ==> (#[trigger] self.running@[i]).download_id != slot,
            decreases self.running.len() - k,
        {
            k += 1;
        }
        proof {
            let before = old(self)@;
            lemma_running_slots_differ(before);
            assert(k < before.running.len());
            assert(before.running_index(slot) == k);
            lemma_complete_keeps_wf(before, slot, outcome);
        }
        let context = self.running.remove(k);
        self.released.push_back(slot);
        assert(pool(self.fresh as nat, self.max_concurrent as nat, self.released@) =~= old(
            self,
        )@.free_slots.push(slot));
        let title = self.queue[context.episode_index].title.clone();
        let ghost listed = self.failed_episodes@;
        match outcome {
            UnitOutcome::Downloaded => {
                self.downloaded = self.downloaded + 1;
                None
            },
            UnitOutcome::TransferFailed(e) => {
                let message = e.message();
                let error = message.clone();
                self.failed = self.failed + 1;
                self.failed_episodes.push((title.clone(), message));
                proof {
                    assert(failure_texts(self.failed_episodes@) =~= failure_texts(listed).push(
                        (title@, message@),
                    ));
                }
                Some(
                    ProgressEvent::DownloadFailed {
                        download_id: slot,
                        episode_title: title,
                        error,
                    },
                )
            },
            UnitOutcome::MetadataFailed(e) => {
                let message = e.message();
                let mut error = String::from_str("Failed to write metadata: ");
                push_text(&mut error, message.as_str());
                self.failed = self.failed + 1;
                self.failed_episodes.push((title.clone(), message));
                proof {
                    assert(failure_texts(self.failed_episodes@) =~= failure_texts(listed).push(
                        (title@, message@),
                    ));
                }
                Some(
                    ProgressEvent::DownloadFailed {
                        download_id: slot,
                        episode_title: title,
                        error,
                    },
                )
            },
        }
    }

    /// The result of a run that is over: the counts and the list of
    /// failures, or the one error that stands for a run in which downloads
    /// were to stop at the first failure and nothing succeeded.
    pub fn finish(self) -> (r: Result<SyncResult, SyncError>)
        requires
            self.wf(),
            self@.is_finished(),
        ensures
            self@.all_failed() ==> r matches Err(SyncError::AllDownloadsFailed),
            !self@.all_failed() ==> (r matches Ok(result) && result.downloaded == self@.downloaded
                && result.skipped == self@.skipped && result.failed == self@.failed
                && failure_texts(result.failed_episodes@) == self@.failed_episodes),
    {
        if self.downloaded == 0 && self.failed > 0 && !self.continue_on_error {
            Err(SyncError::AllDownloadsFailed)
        } else {
            Ok(
                SyncResult {
                    downloaded: self.downloaded,
                    skipped: self.skipped,
                    failed: self.failed,
                    failed_episodes: self.failed_episodes,
                },
            )
        }
    }

    /// The end-of-run summary to report.
    pub fn summary_event(&self) -> (event: ProgressEvent)
        ensures
            event@ == (ProgressEventView::SyncCompleted {
                downloaded_count: self@.downloaded as usize,
                skipped_count: self@.skipped as usize,
                failed_count: self@.failed as usize,
            }),
    {
        ProgressEvent::SyncCompleted {
            downloaded_count: self.downloaded,
            skipped_count: self.skipped,
            failed_count: self.failed,
        }
    }

    /// Whether the run is over.
    pub fn is_finished(&self) -> (r: bool)
        ensures
            r == self@.is_finished(),
    {
        let halted = !self.continue_on_error && self.failed > 0;
        self.running.len() == 0 && (self.started == self.queue.len() || halted)
    }

    /// Whether a download runs in `slot`.
    pub fn is_running(&self, slot: usize) -> (r: bool)
        ensures
            r == self@.is_running(slot),
    {
        let mut k: usize = 0;
        while k < self.running.len()
            invariant
                k <= self.running.len(),
                forall|i: int| 0 <= i < k ==> (#[trigger] self.running@[i]).download_id != slot,
            decreases self.running.len() - k,
        {
            if self.running[k].download_id == slot {
                assert(self@.running[k as int].download_id == slot);
                return true;
            }
            k += 1;
        }
        false
    }

    /// How many downloads run.
    pub fn running_count(&self) -> (n: usize)
        ensures
            n == self@.running.len(),
    {
        self.running.len()
    }

    /// The length of the download queue.
    pub fn queue_len(&self) -> (n: usize)
        ensures
            n == self@.queue.len(),
    {
        self.queue.len()
    }

    /// The episode at `index` in the download queue.
    pub fn episode(&self, index: usize) -> (e: &Episode)
        requires
            index < self@.queue.len(),
        ensures
            *e == self@.queue[index as int],
    {
        &self.queue[index]
    }
}

/// No two running downloads hold the same slot.
pub proof fn lemma_running_slots_differ(s: SchedulerView)
    requires
        s.wf(),
    ensures
        forall|i: int, j: int|
            0 <= i < j < s.running.len() ==> (#[trigger] s.running[i]).download_id != (
            #[trigger] s.running[j]).download_id,
{
    let all = s.free_slots + s.running_slots();
    assert forall|i: int, j: int| 0 <= i < j < s.running.len() implies (
    #[trigger] s.running[i]).download_id != (#[trigger] s.running[j]).download_id by {
        assert(all[s.free_slots.len() + i] == s.running[i].download_id);
        assert(all[s.free_slots.len() + j] == s.running[j].download_id);
    }
}

/// The end of a download leaves the books in order.
pub proof fn lemma_complete_keeps_wf(s: SchedulerView, slot: usize, outcome: UnitOutcome)
    requires
        s.wf(),
        s.is_running(slot),
    ensures
        s.after_complete(slot, outcome).wf(),
{
    let t = s.after_complete(slot, outcome);
    let k = s.running_index(slot);
    let before = s.free_slots + s.running_slots();
    let after = t.free_slots + t.running_slots();
    let f = s.free_slots.len() as int;
    assert(t.running =~= s.running.remove(k));
    assert(t.free_slots =~= s.free_slots.push(slot));
    assert(t.running_slots() =~= s.running_slots().remove(k));
    assert(before[f + k] == slot);
    assert forall|i: int| 0 <= i < after.len() implies #[trigger] after[i] == before[if i < f {
        i
    } else if i == f {
        f + k
    } else if i <= f + k {
        i - 1
    } else {
        i
    }] by {}
    assert forall|i: int, j: int| 0 <= i < j < after.len() implies after[i] != after[j] by {
        let src = |i: int|
            if i < f {
                i
            } else if i == f {
                f + k
            } else if i <= f + k {
                i - 1
            } else {
                i
            };
        assert(after[i] == before[src(i)]);
        assert(after[j] == before[src(j)]);
        assert(src(i) != src(j));
    }
    assert forall|i: int| 0 <= i < t.free_slots.len() implies (#[trigger] t.free_slots[i])
        < t.max_concurrent by {
        if i < f {
            assert(t.free_slots[i] == s.free_slots[i]);
        } else {
            assert(t.free_slots[i] == s.running[k].download_id);
        }
    }
    assert forall|i: int| 0 <= i < t.running.len() implies {
        &&& (#[trigger] t.running[i]).download_id < t.max_concurrent
        &&& t.running[i].episode_index < t.started
        &&& t.running[i].total_to_download == t.queue.len()
    } by {
        if i < k {
            assert(t.running[i] == s.running[i]);
        } else {
            assert(t.running[i] == s.running[i + 1]);
        }
    }
}

/// Downloads start in queue order. The download that is launched is that
/// of the first episode which has not started, and it takes the token at
/// the front of the pool, which no running download holds.
pub proof fn lemma_launch_order(s: SchedulerView)
    requires
        s.wf(),
        s.can_launch(),
    ensures
        s.step() == SchedulerStep::Launch(s.next_context()),
        s.next_context().episode_index == s.started,
        s.next_context().download_id == s.free_slots[0],
        s.next_context().download_id < s.max_concurrent,
        !s.is_running(s.next_context().download_id),
        s.after_step().started == s.started + 1,
{
    let all = s.free_slots + s.running_slots();
    if s.is_running(s.free_slots[0]) {
        let i = s.running_index(s.free_slots[0]);
        assert(all[0] == s.free_slots[0]);
        assert(all[s.free_slots.len() + i] == s.running[i].download_id);
    }
}

/// A download keeps its slot for as long as it runs: neither the launch of
/// another download nor the end of a download in another slot moves it.
pub proof fn lemma_slot_is_kept(
    s: SchedulerView,
    context: DownloadContext,
    slot: usize,
    outcome: UnitOutcome,
)
    requires
        s.wf(),
        s.running.contains(context),
    ensures
        s.after_step().running.contains(context),
        s.is_running(slot) && slot != context.download_id ==> s.after_complete(
            slot,
            outcome,
        ).running.contains(context),
{
    let i = choose|i: int| 0 <= i < s.running.len() && s.running[i] == context;
    if s.can_launch() {
        assert(s.after_step().running[i] == context);
    }
    if s.is_running(slot) && slot != context.download_id {
        let k = s.running_index(slot);
        let after = s.after_complete(slot, outcome).running;
        assert(after =~= s.running.remove(k));
        if i < k {
            assert(after[i] == context);
        } else {
            assert(after[i - 1] == context);
        }
    }
}

/// A run with nothing to download starts no download: its first step is
/// to finish.
pub proof fn lemma_empty_run_finishes(skipped: nat, max_concurrent: nat, continue_on_error: bool)
    ensures
        SchedulerView::initial(Seq::empty(), skipped, max_concurrent, continue_on_error).step()
            is Finish,
{
}

/// The concurrency bound: in every state that a run goes through, no more
/// downloads run than there are slots.
pub proof fn lemma_running_is_bounded(s: SchedulerView)
    requires
        s.wf(),
    ensures
        s.running.len() <= s.max_concurrent,
{
}

/// What happens to a scheduler: it is asked for the next step, or it is
/// told that the download in a slot has ended.
pub enum SchedulerInput {
    Ask,
    Ended { slot: usize, outcome: UnitOutcome },
}

/// The state after one input. The end of a download that does not run
/// changes nothing.
pub open spec fn after_input(s: SchedulerView, input: SchedulerInput) -> SchedulerView {
    match input {
        SchedulerInput::Ask => s.after_step(),
        SchedulerInput::Ended { slot, outcome } => if s.is_running(slot) {
            s.after_complete(slot, outcome)
        } else {
            s
        },
    }
}

/// The state after a sequence of inputs.
pub open spec fn after_inputs(s: SchedulerView, inputs: Seq<SchedulerInput>) -> SchedulerView
    decreases inputs.len(),
{
    if inputs.len() == 0 {
        s
    } else {
        after_input(after_inputs(s, inputs.drop_last()), inputs.last())
    }
}

/// A run begins with its books in order.
pub proof fn lemma_initial_wf(
    queue: Seq<Episode>,
    skipped: nat,
    max_concurrent: nat,
    continue_on_error: bool,
)
    requires
        0 < max_concurrent <= usize::MAX,
        queue.len() <= usize::MAX,
        skipped <= usize::MAX,
    ensures
        SchedulerView::initial(queue, skipped, max_concurrent, continue_on_error).wf(),
{
    let s = SchedulerView::initial(queue, skipped, max_concurrent, continue_on_error);
    assert(s.running_slots() =~= Seq::empty());
    assert(s.free_slots + s.running_slots() =~= s.free_slots);
    assert forall|i: int| 0 <= i < s.free_slots.len() implies (#[trigger] s.free_slots[i])
        == i by {}
}

/// The concurrency bound holds at every instant of every run. Whatever
/// happens to a scheduler from its beginning on, and in whatever order its
/// downloads end, its books stay in order, and no more downloads run than
/// there are slots.
pub proof fn lemma_bound_holds_throughout(
    queue: Seq<Episode>,
    skipped: nat,
    max_concurrent: nat,
    continue_on_error: bool,
    inputs: Seq<SchedulerInput>,
)
    requires
        0 < max_concurrent <= usize::MAX,
        queue.len() <= usize::MAX,
        skipped <= usize::MAX,
    ensures
        after_inputs(
            SchedulerView::initial(queue, skipped, max_concurrent, continue_on_error),
            inputs,
        ).wf(),
        after_inputs(
            SchedulerView::initial(queue, skipped, max_concurrent, continue_on_error),
            inputs,
        ).running.len() <= max_concurrent,
        after_inputs(
            SchedulerView::initial(queue, skipped, max_concurrent, continue_on_error),
            inputs,
        ).max_concurrent == max_concurrent,
    decreases inputs.len(),
{
    let start = SchedulerView::initial(queue, skipped, max_concurrent, continue_on_error);
    if inputs.len() == 0 {
        lemma_initial_wf(queue, skipped, max_concurrent, continue_on_error);
    } else {
        lemma_bound_holds_throughout(
            queue,
            skipped,
            max_concurrent,
            continue_on_error,
            inputs.drop_last(),
        );
        let before = after_inputs(start, inputs.drop_last());
        match inputs.last() {
            SchedulerInput::Ask => {
                if before.can_launch() {
                    lemma_launch_keeps_wf(before);
                }
            },
            SchedulerInput::Ended { slot, outcome } => {
                if before.is_running(slot) {
                    lemma_complete_keeps_wf(before, slot, outcome);
                }
            },
        }
    }
}

/// The failures that a sequence of inputs adds to the list: title and
/// message of every running download that is told to have failed, in the
/// order in which that is told.
pub open spec fn failures_added(s: SchedulerView, inputs: Seq<SchedulerInput>) -> Seq<
    (Seq<char>, Seq<char>),
>
    decreases inputs.len(),
{
    if inputs.len() == 0 {
        Seq::empty()
    } else {
        let before = after_inputs(s, inputs.drop_last());
        let earlier = failures_added(s, inputs.drop_last());
        match inputs.last() {
            SchedulerInput::Ended { slot, outcome } => if before.is_running(slot)
                && outcome.failure() is Some {
                earlier.push((before.title_in(slot), outcome.failure()->0))
            } else {
                earlier
            },
            SchedulerInput::Ask => earlier,
        }
    }
}

/// The number of running downloads that a sequence of inputs tells to
/// have succeeded.
pub open spec fn successes_added(s: SchedulerView, inputs: Seq<SchedulerInput>) -> nat
    decreases inputs.len(),
{
    if inputs.len() == 0 {
        0
    } else {
        let before = after_inputs(s, inputs.drop_last());
        let earlier = successes_added(s, inputs.drop_last());
        match inputs.last() {
            SchedulerInput::Ended { slot, outcome } => if before.is_running(slot)
                && outcome.failure() is None {
                earlier + 1
            } else {
                earlier
            },
            SchedulerInput::Ask => earlier,
        }
    }
}

/// The books of a run add up. After any sequence of inputs the scheduler
/// has counted exactly the ends that it was told of: one download for each
/// success, and one failure, listed under the episode's title with its
/// message, for each failure. The queue and the options are what they
/// were.
pub proof fn lemma_run_adds_up(s: SchedulerView, inputs: Seq<SchedulerInput>)
    ensures
        after_inputs(s, inputs).downloaded == s.downloaded + successes_added(s, inputs),
        after_inputs(s, inputs).failed == s.failed + failures_added(s, inputs).len(),
        after_inputs(s, inputs).failed_episodes == s.failed_episodes + failures_added(s, inputs),
        after_inputs(s, inputs).queue == s.queue,
        after_inputs(s, inputs).skipped == s.skipped,
        after_inputs(s, inputs).max_concurrent == s.max_concurrent,
        after_inputs(s, inputs).continue_on_error == s.continue_on_error,
    decreases inputs.len(),
{
    if inputs.len() == 0 {
        assert(s.failed_episodes + Seq::<(Seq<char>, Seq<char>)>::empty() =~= s.failed_episodes);
    } else {
        lemma_run_adds_up(s, inputs.drop_last());
        let before = after_inputs(s, inputs.drop_last());
        let earlier = failures_added(s, inputs.drop_last());
        match inputs.last() {
            SchedulerInput::Ended { slot, outcome } => {
                if before.is_running(slot) && outcome.failure() is Some {
                    let entry = (before.title_in(slot), outcome.failure()->0);
                    assert((s.failed_episodes + earlier).push(entry) =~= s.failed_episodes
                        + earlier.push(entry));
                }
            },
            SchedulerInput::Ask => {},
        }
    }
}

/// A run in which one download fails. Where a run that goes on after
/// failures is over and was told of exactly one failure, it has recorded
/// that one failure under the episode's title with its message, it has
/// downloaded every other episode of the queue, and it ends with a result
/// and not with an error.
pub proof fn lemma_run_with_one_failure(
    queue: Seq<Episode>,
    skipped: nat,
    max_concurrent: nat,
    inputs: Seq<SchedulerInput>,
)
    requires
        0 < max_concurrent <= usize::MAX,
        queue.len() <= usize::MAX,
        skipped <= usize::MAX,
        after_inputs(SchedulerView::initial(queue, skipped, max_concurrent, true), inputs)
            .is_finished(),
        failures_added(
            SchedulerView::initial(queue, skipped, max_concurrent, true),
            inputs,
        ).len() == 1,
    ensures
        ({
            let end = after_inputs(
                SchedulerView::initial(queue, skipped, max_concurrent, true),
                inputs,
            );
            &&& end.failed == 1
            &&& end.downloaded == queue.len() - 1
            &&& end.skipped == skipped
            &&& end.failed_episodes == failures_added(
                SchedulerView::initial(queue, skipped, max_concurrent, true),
                inputs,
            )
            &&& !end.all_failed()
        }),
{
    let start = SchedulerView::initial(queue, skipped, max_concurrent, true);
    lemma_bound_holds_throughout(queue, skipped, max_concurrent, true, inputs);
    lemma_run_adds_up(start, inputs);
    lemma_finished_run_is_complete(after_inputs(start, inputs));
    assert(start.failed_episodes + failures_added(start, inputs) =~= failures_added(
        start,
        inputs,
    ));
}

/// A run with nothing to download stays as it began, whatever happens to
/// it: it never launches a download, it counts nothing, and its step is to
/// finish.
pub proof fn lemma_empty_run_stays(
    skipped: nat,
    max_concurrent: nat,
    continue_on_error: bool,
    inputs: Seq<SchedulerInput>,
)
    ensures
        after_inputs(
            SchedulerView::initial(Seq::empty(), skipped, max_concurrent, continue_on_error),
            inputs,
        ) == SchedulerView::initial(Seq::empty(), skipped, max_concurrent, continue_on_error),
    decreases inputs.len(),
{
    if inputs.len() > 0 {
        lemma_empty_run_stays(skipped, max_concurrent, continue_on_error, inputs.drop_last());
    }
}

/// Every episode of a feed is either present or missing.
proof fn lemma_present_or_missing(items: Seq<Episode>, state: OutputState)
    ensures
        present_episodes(items, state).len() + missing_episodes(items, state).len()
            == items.len(),
    decreases items.len(),
{
    reveal(Seq::filter);
    if items.len() > 0 {
        lemma_present_or_missing(items.drop_last(), state);
    }
}

/// Synchronisation is idempotent. Take a feed in which every episode
/// carries an identity, a first run that downloaded all that it had
/// planned, and a scan after it that finds what was there before and what
/// the first run committed. Then the second run has an empty queue: it
/// never launches a download, whatever happens to it, it is over from the
/// start with nothing downloaded and nothing failed, and it skips as many
/// episodes as the first run downloaded and skipped together.
pub proof fn lemma_second_run(
    items: Seq<Episode>,
    first: OutputState,
    second: OutputState,
    limit: Option<usize>,
    max_concurrent: nat,
    continue_on_error: bool,
    inputs: Seq<SchedulerInput>,
)
    requires
        forall|i: int| 0 <= i < items.len() ==> (#[trigger] items[i]).guid is Some,
        first.identities().subset_of(second.identities()),
        forall|k: int|
            0 <= k < newest_first(missing_episodes(items, first)).len() ==> second.has_episode(
                #[trigger] newest_first(missing_episodes(items, first))[k],
            ),
    ensures
        ({
            let start = SchedulerView::initial(
                limited(newest_first(missing_episodes(items, second)), limit),
                present_episodes(items, second).len(),
                max_concurrent,
                continue_on_error,
            );
            let end = after_inputs(start, inputs);
            &&& start.queue.len() == 0
            &&& end == start
            &&& end.step() is Finish
            &&& end.is_finished()
            &&& !end.all_failed()
            &&& end.downloaded == 0
            &&& end.failed == 0
            &&& end.skipped == missing_episodes(items, first).len() + present_episodes(
                items,
                first,
            ).len()
        }),
{
    lemma_second_plan_downloads_nothing(items, first, second);
    lemma_present_or_missing(items, first);
    let queue = limited(newest_first(missing_episodes(items, second)), limit);
    assert(queue =~= Seq::<Episode>::empty());
    lemma_empty_run_stays(
        present_episodes(items, second).len(),
        max_concurrent,
        continue_on_error,
        inputs,
    );
}

/// A run cannot stall: whoever is told to wait has a running download whose
/// end will be reported, and whoever is told to finish has a run that is
/// over.
pub proof fn lemma_no_stall(s: SchedulerView)
    requires
        s.wf(),
    ensures
        s.step() is Wait ==> s.running.len() > 0,
        s.step() is Finish <==> s.is_finished(),
{
}

/// The work that a run has before it: two steps for every episode that has
/// not started, its launch and its end, and one for every download that
/// runs.
pub open spec fn work_left(s: SchedulerView) -> int {
    2 * (s.queue.len() - s.started) + s.running.len()
}

/// Every launch and every reported end takes one step off the work that is
/// left, so a run over `n` episodes is over after at most `2 * n` of them.
pub proof fn lemma_run_advances(s: SchedulerView, slot: usize, outcome: UnitOutcome)
    requires
        s.wf(),
    ensures
        0 <= work_left(s) <= 2 * s.queue.len(),
        s.can_launch() ==> work_left(s.after_step()) == work_left(s) - 1,
        s.is_running(slot) ==> work_left(s.after_complete(slot, outcome)) == work_left(s) - 1,
{
    if s.is_running(slot) {
        let k = s.running_index(slot);
        assert(s.running.remove(k).len() == s.running.len() - 1);
    }
}

/// Every queued episode comes to an end. When a run that goes on after
/// failures is over, each episode of the queue was either downloaded or
/// recorded as a failure.
pub proof fn lemma_finished_run_is_complete(s: SchedulerView)
    requires
        s.wf(),
        s.is_finished(),
        s.continue_on_error,
    ensures
        s.downloaded + s.failed == s.queue.len(),
        s.failed_episodes.len() == s.failed,
{
}

/// A launch leaves the books in order.
pub proof fn lemma_launch_keeps_wf(s: SchedulerView)
    requires
        s.wf(),
        s.can_launch(),
    ensures
        s.after_step().wf(),
{
    let t = s.after_step();
    let slot = s.free_slots[0];
    let before = s.free_slots + s.running_slots();
    let after = t.free_slots + t.running_slots();
    assert(t.running_slots() =~= s.running_slots().push(slot));
    assert(after =~= before.drop_first().push(slot));
    assert forall|i: int, j: int| 0 <= i < j < after.len() implies after[i] != after[j] by {
        if j == after.len() - 1 {
            assert(after[i] == before[i + 1]);
            assert(after[j] == before[0]);
        } else {
            assert(after[i] == before[i + 1]);
            assert(after[j] == before[j + 1]);
        }
    }
    assert forall|i: int| 0 <= i < t.free_slots.len() implies (#[trigger] t.free_slots[i])
        < t.max_concurrent by {
        assert(t.free_slots[i] == s.free_slots[i + 1]);
    }
    assert forall|i: int| 0 <= i < t.running.len() implies {
        &&& (#[trigger] t.running[i]).download_id < t.max_concurrent
        &&& t.running[i].episode_index < t.started
        &&& t.running[i].total_to_download == t.queue.len()
    } by {
        if i < s.running.len() {
            assert(t.running[i] == s.running[i]);
        }
    }
}

} // verus!
