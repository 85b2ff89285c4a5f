//! Progress events, and those who listen to them.
//!
//! The scheduler and the transfer protocol hand out events as values; the
//! caller passes them to a reporter. Within one episode the events come in
//! the order start, progress, then completion or failure.

use crate::text::{chars_of, exceeds_bytes, push_text, text_of_range, utf8_len};
use std::sync::Arc;
use vstd::prelude::*;

verus! {

/// Events emitted during podcast synchronisation.
#[derive(Debug, Clone)]
pub enum ProgressEvent {
    /// Feed is being fetched from a URL.
    FetchingFeed { url: String },
    /// Feed has been parsed successfully.
    FeedParsed { podcast_title: String, total_episodes: usize, new_episodes: usize },
    /// A download is starting in the slot `download_id`.
    DownloadStarting {
        download_id: usize,
        episode_title: String,
        episode_index: usize,
        total_to_download: usize,
        content_length: Option<u64>,
    },
    /// Download progress update.
    DownloadProgress {
        download_id: usize,
        episode_title: String,
        bytes_downloaded: u64,
        total_bytes: Option<u64>,
    },
    /// A download completed successfully.
    DownloadCompleted { download_id: usize, episode_title: String, bytes_downloaded: u64 },
    /// A download failed.
    DownloadFailed { download_id: usize, episode_title: String, error: String },
    /// Download is being finalised: the temporary file is about to be renamed.
    Finalizing { download_id: usize, episode_title: String },
    /// Hashing completed for a download.
    HashingCompleted { download_id: usize, episode_title: String, hash: String },
    /// Partial files were cleaned up during the directory scan.
    PartialFilesCleanedUp { count: usize },
    /// Sync operation completed.
    SyncCompleted { downloaded_count: usize, skipped_count: usize, failed_count: usize },
}

/// A progress event with its texts as sequences of characters.
pub enum ProgressEventView {
    FetchingFeed { url: Seq<char> },
    FeedParsed { podcast_title: Seq<char>, total_episodes: usize, new_episodes: usize },
    DownloadStarting {
        download_id: usize,
        episode_title: Seq<char>,
        episode_index: usize,
        total_to_download: usize,
        content_length: Option<u64>,
    },
    DownloadProgress {
        download_id: usize,
        episode_title: Seq<char>,
        bytes_downloaded: u64,
        total_bytes: Option<u64>,
    },
    DownloadCompleted { download_id: usize, episode_title: Seq<char>, bytes_downloaded: u64 },
    DownloadFailed { download_id: usize, episode_title: Seq<char>, error: Seq<char> },
    Finalizing { download_id: usize, episode_title: Seq<char> },
    HashingCompleted { download_id: usize, episode_title: Seq<char>, hash: Seq<char> },
    PartialFilesCleanedUp { count: usize },
    SyncCompleted { downloaded_count: usize, skipped_count: usize, failed_count: usize },
}

impl View for ProgressEvent {
    type V = ProgressEventView;

    open spec fn view(&self) -> ProgressEventView {
        match *self {
            ProgressEvent::FetchingFeed { url } => ProgressEventView::FetchingFeed { url: url@ },
            ProgressEvent::FeedParsed {
                podcast_title,
                total_episodes,
                new_episodes,
            } => ProgressEventView::FeedParsed {
                podcast_title: podcast_title@,
                total_episodes,
                new_episodes,
            },
            ProgressEvent::DownloadStarting {
                download_id,
                episode_title,
                episode_index,
                total_to_download,
                content_length,
            } => ProgressEventView::DownloadStarting {
                download_id,
                episode_title: episode_title@,
                episode_index,
                total_to_download,
                content_length,
            },
            ProgressEvent::DownloadProgress {
                download_id,
                episode_title,
                bytes_downloaded,
                total_bytes,
            } => ProgressEventView::DownloadProgress {
                download_id,
                episode_title: episode_title@,
                bytes_downloaded,
                total_bytes,
            },
            ProgressEvent::DownloadCompleted {
                download_id,
                episode_title,
                bytes_downloaded,
            } => ProgressEventView::DownloadCompleted {
                download_id,
                episode_title: episode_title@,
                bytes_downloaded,
            },
            ProgressEvent::DownloadFailed {
                download_id,
                episode_title,
                error,
            } => ProgressEventView::DownloadFailed {
                download_id,
                episode_title: episode_title@,
                error: error@,
            },
            ProgressEvent::Finalizing {
                download_id,
                episode_title,
            } => ProgressEventView::Finalizing { download_id, episode_title: episode_title@ },
            ProgressEvent::HashingCompleted {
                download_id,
                episode_title,
                hash,
            } => ProgressEventView::HashingCompleted {
                download_id,
                episode_title: episode_title@,
                hash: hash@,
            },
            ProgressEvent::PartialFilesCleanedUp {
                count,
            } => ProgressEventView::PartialFilesCleanedUp { count },
            ProgressEvent::SyncCompleted {
                downloaded_count,
                skipped_count,
                failed_count,
            } => ProgressEventView::SyncCompleted { downloaded_count, skipped_count, failed_count },
        }
    }
}

/// Receives progress events during synchronisation.
///
/// Implementations may display progress bars, log messages or collect
/// statistics. Reporting must neither block nor fail.
pub trait ProgressReporter: Send + Sync {
    /// Reports a progress event.
    fn report(&self, event: ProgressEvent);
}

/// A shared reference to a progress reporter.
pub type SharedProgressReporter = Arc<dyn ProgressReporter>;

/// A progress reporter that silently ignores all events.
#[derive(Debug, Default, Clone, Copy)]
pub struct NoopReporter;

impl ProgressReporter for NoopReporter {
    fn report(&self, _event: ProgressEvent) {
    }
}

impl NoopReporter {
    /// Creates a new `NoopReporter` behind a shared reference. Where a
    /// [`SharedProgressReporter`] is asked for, the result is one: the
    /// reference turns into a reference to the trait object by itself.
    pub fn shared() -> (reporter: Arc<NoopReporter>)
        ensures
            *reporter == NoopReporter,
    {
        Arc::new(NoopReporter)
    }
}

/// The number of bytes that are kept of a title which is cut to `max_len`
/// bytes: three less, to make room for the dots.
pub open spec fn kept_bytes(max_len: nat) -> nat {
    if max_len >= 3 {
        (max_len - 3) as nat
    } else {
        0
    }
}

/// Whether a title can be cut to `max_len` bytes: it is short enough to
/// stay whole, or the cut falls between two of its characters.
pub open spec fn can_truncate(title: Seq<char>, max_len: nat) -> bool {
    utf8_len(title) <= max_len || exists|k: int|
        0 <= k <= title.len() && utf8_len(#[trigger] title.take(k)) == kept_bytes(max_len)
}

/// A text of more characters takes no fewer bytes.
proof fn lemma_utf8_len_grows(s: Seq<char>, i: int, j: int)
    requires
        0 <= i <= j <= s.len(),
    ensures
        utf8_len(s.take(i)) <= utf8_len(s.take(j)),
        i < j ==> utf8_len(s.take(i)) < utf8_len(s.take(j)),
    decreases j - i,
{
    if i < j {
        assert(s.take(j).drop_last() =~= s.take(j - 1));
        lemma_utf8_len_grows(s, i, j - 1);
    }
}

/// Decides [`can_truncate`].
pub fn can_truncate_title(title: &str, max_len: usize) -> (r: bool)
    ensures
        r == can_truncate(title@, max_len as nat),
{
    let v = chars_of(title);
    assert(v@.take(v@.len() as int) =~= v@);
    if !exceeds_bytes(&v, v.len(), max_len) {
        return true;
    }
    let keep: usize = if max_len >= 3 {
        max_len - 3
    } else {
        0
    };
    let mut k: usize = 0;
    while k < v.len() && !exceeds_bytes(&v, k + 1, keep)
        invariant
            k <= v.len(),
            !(utf8_len(v@.take(k as int)) > keep),
        decreases v.len() - k,
    {
        k += 1;
    }
    let fits = !exceeds_bytes(&v, k, keep);
    let short = keep > 0 && !exceeds_bytes(&v, k, keep - 1);
    proof {
        if short {
            assert forall|j: int| 0 <= j <= v@.len() implies utf8_len(#[trigger] v@.take(j))
                != keep by {
                if j <= k {
                    lemma_utf8_len_grows(v@, j, k as int);
                } else {
                    lemma_utf8_len_grows(v@, k + 1, j);
                }
            }
        }
    }
    fits && !short
}

/// Cuts a title to `max_len` bytes for display: a title that is longer
/// keeps its first `max_len - 3` bytes and ends in three dots.
pub fn truncate_title(title: &str, max_len: usize) -> (r: String)
    requires
        can_truncate(title@, max_len as nat),
    ensures
        utf8_len(title@) <= max_len ==> r@ == title@,
        utf8_len(title@) > max_len ==> exists|k: int|
            0 <= k <= title@.len() && utf8_len(#[trigger] title@.take(k)) == kept_bytes(
                max_len as nat,
            ) && r@ == title@.take(k) + "..."@,
{
    let v = chars_of(title);
    assert(v@.take(v@.len() as int) =~= v@);
    if !exceeds_bytes(&v, v.len(), max_len) {
        assert(v@.subrange(0, v@.len() as int) =~= v@);
        return text_of_range(&v, 0, v.len());
    }
    let keep: usize = if max_len >= 3 {
        max_len - 3
    } else {
        0
    };
    let ghost cut = choose|k: int|
        0 <= k <= v@.len() && utf8_len(#[trigger] v@.take(k)) == kept_bytes(max_len as nat);
    let mut k: usize = 0;
    while k < v.len() && !exceeds_bytes(&v, k + 1, keep)
        invariant
            k <= v.len(),
            k <= cut <= v.len(),
            utf8_len(v@.take(cut)) == keep,
        decreases v.len() - k,
    {
        proof {
            if k == cut {
                lemma_utf8_len_grows(v@, cut, k + 1);
            }
        }
        k += 1;
    }
    proof {
        if k < cut {
            lemma_utf8_len_grows(v@, k + 1, cut);
        }
        assert(v@.subrange(0, k as int) =~= v@.take(k as int));
    }
    let mut r = text_of_range(&v, 0, k);
    push_text(&mut r, "...");
    r
}

} // verus!
