//! The transfer of one episode.
//!
//! A transfer is a strict sequence: request the enclosure, create a
//! temporary file beside the destination, append the response chunk by
//! chunk while a digest runs over the same bytes, flush, and rename the
//! temporary file to the destination. The rename is the one moment at which
//! the payload becomes visible under its final name. A failure after the
//! temporary file was created removes that file before the failure is
//! handed out.
//!
//! [`Transfer`] decides what comes next; its caller talks to the network
//! and the file system and answers each step with what happened.

use super::hash::{
    absorbed, content_hash, hasher_finish, hasher_new, hasher_update, ContentHasher,
    CONTENT_HASH_LENGTH,
};
use crate::error::DownloadError;
use crate::feed::Episode;
use crate::progress::{ProgressEvent, ProgressEventView};
use crate::text::push_text;
use vstd::prelude::*;
use vstd::string::StringExecFns;

verus! {

/// Where a download stands among the others of a run.
///
/// `download_id` is the slot that the download occupies: one of
/// `0..max_concurrent`, held from launch to completion and then handed to
/// the next download. `episode_index` is the episode's position in the
/// download queue and `total_to_download` the length of that queue.
#[derive(Debug, Clone, Copy, PartialEq, Eq, Structural)]
pub struct DownloadContext {
    pub download_id: usize,
    pub episode_index: usize,
    pub total_to_download: usize,
}

/// Result of a successful download.
///
/// `content_hash` is the digest of exactly the bytes that were written, in
/// the form `sha256:` followed by the digest in lower-case hexadecimal.
#[derive(Debug, Clone)]
pub struct DownloadResult {
    pub bytes_downloaded: u64,
    pub content_hash: String,
}

/// The name of the temporary file of a transfer to `destination`.
pub open spec fn partial_path(destination: Seq<char>) -> Seq<char> {
    destination + ".partial"@
}

/// Whether a response status stands for success.
pub open spec fn is_success(status: u16) -> bool {
    200 <= status < 300
}

/// Where a transfer stands: the step whose answer it waits for.
#[derive(Debug, Clone, Copy, PartialEq, Eq, Structural)]
pub enum TransferPhase {
    /// The request is out.
    AwaitingResponse,
    /// The temporary file is being created.
    CreatingFile,
    /// The next chunk of the response is awaited.
    Reading,
    /// A chunk is being appended to the temporary file.
    Writing,
    /// The temporary file is being flushed.
    Flushing,
    /// The temporary file is being renamed to the destination.
    Renaming,
    /// The temporary file is being removed after a failure.
    Discarding,
    /// The transfer is over.
    Done,
}

/// What the caller of a transfer has to do next.
#[derive(Debug)]
pub enum TransferStep {
    /// Issue a streamed GET for `url`; answer with
    /// [`Transfer::on_response`].
    Request { url: String },
    /// Create the file `path`, empty; answer with
    /// [`Transfer::on_file_created`].
    CreateFile { path: String },
    /// Take the next chunk from the response; answer with
    /// [`Transfer::on_chunk`].
    ReadChunk,
    /// Append the chunk just taken to `path`; answer with
    /// [`Transfer::on_written`].
    WriteChunk { path: String },
    /// Flush and close `path`; answer with [`Transfer::on_flushed`].
    Flush { path: String },
    /// Rename `from` to `to`; answer with [`Transfer::on_renamed`].
    Rename { from: String, to: String },
    /// Remove `path`, then call [`Transfer::on_discarded`].
    Discard { path: String },
    /// The transfer is over, with this result.
    Done(Result<DownloadResult, DownloadError>),
}

/// The state of a transfer.
pub struct TransferView {
    pub title: Seq<char>,
    pub url: Seq<char>,
    pub destination: Seq<char>,
    pub context: DownloadContext,
    pub phase: TransferPhase,
    /// The length that the response declared, if any.
    pub content_length: Option<u64>,
    /// The bytes of the chunks taken from the response so far.
    pub received: Seq<u8>,
    /// How many of them were appended to the temporary file.
    pub written: nat,
    /// Whether the temporary file exists.
    pub partial_exists: bool,
    /// Whether the payload stands under its final name.
    pub committed: bool,
}

impl TransferView {
    /// The temporary file exists from its creation to the rename or the
    /// removal and at no other time; the payload is committed only by a
    /// transfer that is over; and between two chunks, and in a payload that
    /// is committed, what was written is what was received.
    pub open spec fn wf(self) -> bool {
        &&& self.received.len() <= u64::MAX
        &&& self.written <= self.received.len()
        &&& self.partial_exists <==> (self.phase is Reading || self.phase is Writing
            || self.phase is Flushing || self.phase is Renaming || self.phase is Discarding)
        &&& self.committed ==> self.phase is Done
        &&& self.phase is AwaitingResponse || self.phase is CreatingFile ==> self.received.len()
            == 0
        &&& self.phase is Reading || self.phase is Flushing || self.phase is Renaming
            || self.committed ==> self.written == self.received.len()
    }
}

/// The progress events of a list, as views.
pub open spec fn event_views(events: Seq<ProgressEvent>) -> Seq<ProgressEventView> {
    events.map_values(|e: ProgressEvent| e@)
}

/// One episode's transfer, from the request to the commit.
pub struct Transfer {
    title: String,
    url: String,
    destination: String,
    partial: String,
    context: DownloadContext,
    phase: TransferPhase,
    content_length: Option<u64>,
    hasher: ContentHasher,
    bytes: Ghost<Seq<u8>>,
    received: u64,
    written: u64,
    content_hash: String,
    failure: Option<DownloadError>,
    committed: bool,
}

impl View for Transfer {
    type V = TransferView;

    closed spec fn view(&self) -> TransferView {
        TransferView {
            title: self.title@,
            url: self.url@,
            destination: self.destination@,
            context: self.context,
            phase: self.phase,
            content_length: self.content_length,
            received: self.bytes@,
            written: self.written as nat,
            partial_exists: self.phase is Reading || self.phase is Writing
                || self.phase is Flushing || self.phase is Renaming || self.phase is Discarding,
            committed: self.committed,
        }
    }
}

impl Transfer {
    /// Whether the transfer's books are in order: its view is well formed,
    /// the digest has run over exactly the bytes received, and a failure is
    /// at hand wherever one is to be handed out.
    pub closed spec fn wf(&self) -> bool {
        &&& self@.wf()
        &&& self.partial@ == partial_path(self.destination@)
        &&& self.received == self.bytes@.len()
        &&& self.phase is AwaitingResponse || self.phase is CreatingFile || self.phase is Reading
            || self.phase is Writing || self.phase is Flushing ==> absorbed(self.hasher)
            == self.bytes@
        &&& self.phase is Renaming ==> self.content_hash@ == content_hash(self.bytes@)
            && self.content_hash@.len() == CONTENT_HASH_LENGTH
        &&& self.phase is Discarding ==> self.failure is Some
    }

    /// The failure that is handed out once the temporary file is removed.
    pub closed spec fn pending_failure(&self) -> Option<DownloadError> {
        self.failure
    }

    /// A transfer that is in order has a view that is.
    pub proof fn lemma_view_wf(&self)
        requires
            self.wf(),
        ensures
            self@.wf(),
    {
    }

    /// Where the transfer stands.
    pub fn phase(&self) -> (p: TransferPhase)
        ensures
            p == self@.phase,
    {
        self.phase
    }

    /// How many bytes were appended to the temporary file.
    pub fn bytes_written(&self) -> (n: u64)
        ensures
            n == self@.written,
    {
        self.written
    }

    /// How many bytes of the response were taken in.
    pub fn bytes_received(&self) -> (n: u64)
        requires
            self.wf(),
        ensures
            n == self@.received.len(),
    {
        self.received
    }

    /// Begins the transfer of `episode` to `destination`: nothing is
    /// received, nothing exists on disk, and the first step is the request
    /// for the enclosure.
    pub fn start(episode: &Episode, destination: &str, context: &DownloadContext) -> (out: (
        Transfer,
        TransferStep,
    ))
        ensures
            out.0.wf(),
            out.0@ == (TransferView {
                title: episode.title@,
                url: episode.enclosure.url@,
                destination: destination@,
                context: *context,
                phase: TransferPhase::AwaitingResponse,
                content_length: None,
                received: Seq::empty(),
                written: 0,
                partial_exists: false,
                committed: false,
            }),
            out.1 matches TransferStep::Request { url } && url@ == episode.enclosure.url@,
    {
        let mut partial = String::from_str(destination);
        push_text(&mut partial, ".partial");
        let transfer = Transfer {
            title: episode.title.clone(),
            url: episode.enclosure.url.clone(),
            destination: String::from_str(destination),
            partial,
            context: *context,
            phase: TransferPhase::AwaitingResponse,
            content_length: None,
            hasher: hasher_new(),
            bytes: Ghost(Seq::empty()),
            received: 0,
            written: 0,
            content_hash: String::new(),
            failure: None,
            committed: false,
        };
        let step = TransferStep::Request { url: episode.enclosure.url.clone() };
        (transfer, step)
    }

    /// Takes the answer to the request: the status and the declared length,
    /// or the reason why there is no response.
    ///
    /// A response with a success status starts the download: it is
    /// announced, and the temporary file is to be created. Any other status,
    /// and a request that failed, ends the transfer with nothing on disk.
    pub fn on_response(&mut self, response: Result<(u16, Option<u64>), String>) -> (out: (
        TransferStep,
        Vec<ProgressEvent>,
    ))
        requires
            old(self).wf(),
            old(self)@.phase is AwaitingResponse,
        ensures
            final(self).wf(),
            final(self)@.wf(),
            match response {
                Ok((status, length)) if is_success(status) => {
                    &&& final(self)@ == (TransferView {
                        phase: TransferPhase::CreatingFile,
                        content_length: length,
                        ..old(self)@
                    })
                    &&& out.0 matches TransferStep::CreateFile { path } && path@ == partial_path(
                        old(self)@.destination,
                    )
                    &&& event_views(out.1@) == seq![
                        ProgressEventView::DownloadStarting {
                            download_id: old(self)@.context.download_id,
                            episode_title: old(self)@.title,
                            episode_index: old(self)@.context.episode_index,
                            total_to_download: old(self)@.context.total_to_download,
                            content_length: length,
                        },
                    ]
                },
                Ok((status, length)) => {
                    &&& final(self)@ == (TransferView { phase: TransferPhase::Done, ..old(self)@ })
                    &&& out.0 matches TransferStep::Done(
                        Err(DownloadError::HttpStatus { url, status: reported }),
                    ) && url@ == old(self)@.url && reported == status
                    &&& out.1@.len() == 0
                },
                Err(reason) => {
                    &&& final(self)@ == (TransferView { phase: TransferPhase::Done, ..old(self)@ })
                    &&& out.0 matches TransferStep::Done(
                        Err(DownloadError::HttpFailed { url, reason: told }),
                    ) && url@ == old(self)@.url && told@ == reason@
                    &&& out.1@.len() == 0
                },
            },
    {
        let mut events: Vec<ProgressEvent> = Vec::new();
        match response {
            Ok((status, length)) => {
                if 200 <= status && status < 300 {
                    self.phase = TransferPhase::CreatingFile;
                    self.content_length = length;
                    events.push(
                        ProgressEvent::DownloadStarting {
                            download_id: self.context.download_id,
                            episode_title: self.title.clone(),
                            episode_index: self.context.episode_index,
                            total_to_download: self.context.total_to_download,
                            content_length: length,
                        },
                    );
                    assert(event_views(events@) =~= seq![events@[0]@]);
                    (TransferStep::CreateFile { path: self.partial.clone() }, events)
                } else {
                    self.phase = TransferPhase::Done;
                    let error = DownloadError::HttpStatus { url: self.url.clone(), status };
                    (TransferStep::Done(Err(error)), events)
                }
            },
            Err(reason) => {
                self.phase = TransferPhase::Done;
                let error = DownloadError::HttpFailed { url: self.url.clone(), reason };
                (TransferStep::Done(Err(error)), events)
            },
        }
    }

    /// Takes the answer to the creation of the temporary file.
    ///
    /// Once the file exists the response is read. If it could not be
    /// created the transfer ends with nothing on disk.
    pub fn on_file_created(&mut self, created: Result<(), String>) -> (step: TransferStep)
        requires
            old(self).wf(),
            old(self)@.phase is CreatingFile,
        ensures
            final(self).wf(),
            final(self)@.wf(),
            match created {
                Ok(_) => {
                    &&& final(self)@ == (TransferView {
                        phase: TransferPhase::Reading,
                        partial_exists: true,
                        ..old(self)@
                    })
                    &&& step is ReadChunk
                },
                Err(reason) => {
                    &&& final(self)@ == (TransferView { phase: TransferPhase::Done, ..old(self)@ })
                    &&& step matches TransferStep::Done(
                        Err(DownloadError::FileCreateFailed { path, reason: told }),
                    ) && path@ == partial_path(old(self)@.destination) && told@ == reason@
                },
            },
    {
        match created {
            Ok(_) => {
                self.phase = TransferPhase::Reading;
                TransferStep::ReadChunk
            },
            Err(reason) => {
                self.phase = TransferPhase::Done;
                let error = DownloadError::FileCreateFailed { path: self.partial.clone(), reason };
                TransferStep::Done(Err(error))
            },
        }
    }

    /// Takes what the response gave next: a chunk, its end (`None`), or
    /// the reason why it broke off.
    ///
    /// A chunk goes into the digest and is to be appended to the temporary
    /// file. At the end of the response the file is to be flushed. A broken
    /// response fails the transfer: the temporary file is to be removed.
    pub fn on_chunk(&mut self, chunk: Option<Result<&[u8], String>>) -> (step: TransferStep)
        requires
            old(self).wf(),
            old(self)@.phase is Reading,
            chunk matches Some(Ok(data)) ==> old(self)@.received.len() + data@.len() <= u64::MAX,
        ensures
            final(self).wf(),
            final(self)@.wf(),
            match chunk {
                Some(Ok(data)) => {
                    &&& final(self)@ == (TransferView {
                        phase: TransferPhase::Writing,
                        received: old(self)@.received + data@,
                        ..old(self)@
                    })
                    &&& step matches TransferStep::WriteChunk { path } && path@ == partial_path(
                        old(self)@.destination,
                    )
                },
                None => {
                    &&& final(self)@ == (TransferView {
                        phase: TransferPhase::Flushing,
                        ..old(self)@
                    })
                    &&& step matches TransferStep::Flush { path } && path@ == partial_path(
                        old(self)@.destination,
                    )
                },
                Some(Err(reason)) => {
                    &&& final(self)@ == (TransferView {
                        phase: TransferPhase::Discarding,
                        ..old(self)@
                    })
                    &&& final(self).pending_failure() matches Some(
                        DownloadError::StreamFailed { url, reason: told },
                    ) && url@ == old(self)@.url && told@ == reason@
                    &&& step matches TransferStep::Discard { path } && path@ == partial_path(
                        old(self)@.destination,
                    )
                },
            },
    {
        match chunk {
            Some(Ok(data)) => {
                hasher_update(&mut self.hasher, data);
                self.bytes = Ghost(self.bytes@ + data@);
                self.received = self.received + data.len() as u64;
                self.phase = TransferPhase::Writing;
                TransferStep::WriteChunk { path: self.partial.clone() }
            },
            None => {
                self.phase = TransferPhase::Flushing;
                TransferStep::Flush { path: self.partial.clone() }
            },
            Some(Err(reason)) => {
                self.failure = Some(DownloadError::StreamFailed { url: self.url.clone(), reason });
                self.phase = TransferPhase::Discarding;
                TransferStep::Discard { path: self.partial.clone() }
            },
        }
    }

    /// Takes the answer to the writing of a chunk.
    ///
    /// A chunk that was written counts as downloaded and is reported; the
    /// response is read on. A chunk that could not be written fails the
    /// transfer: the temporary file is to be removed.
    pub fn on_written(&mut self, written: Result<(), String>) -> (out: (
        TransferStep,
        Vec<ProgressEvent>,
    ))
        requires
            old(self).wf(),
            old(self)@.phase is Writing,
        ensures
            final(self).wf(),
            final(self)@.wf(),
            match written {
                Ok(_) => {
                    &&& final(self)@ == (TransferView {
                        phase: TransferPhase::Reading,
                        written: old(self)@.received.len(),
                        ..old(self)@
                    })
                    &&& out.0 is ReadChunk
                    &&& event_views(out.1@) == seq![
                        ProgressEventView::DownloadProgress {
                            download_id: old(self)@.context.download_id,
                            episode_title: old(self)@.title,
                            bytes_downloaded: old(self)@.received.len() as u64,
                            total_bytes: old(self)@.content_length,
                        },
                    ]
                },
                Err(reason) => {
                    &&& final(self)@ == (TransferView {
                        phase: TransferPhase::Discarding,
                        ..old(self)@
                    })
                    &&& final(self).pending_failure() matches Some(
                        DownloadError::FileWriteFailed { path, reason: told },
                    ) && path@ == partial_path(old(self)@.destination) && told@ == reason@
                    &&& out.0 matches TransferStep::Discard { path } && path@ == partial_path(
                        old(self)@.destination,
                    )
                    &&& out.1@.len() == 0
                },
            },
    {
        let mut events: Vec<ProgressEvent> = Vec::new();
        match written {
            Ok(_) => {
                self.written = self.received;
                self.phase = TransferPhase::Reading;
                events.push(
                    ProgressEvent::DownloadProgress {
                        download_id: self.context.download_id,
                        episode_title: self.title.clone(),
                        bytes_downloaded: self.written,
                        total_bytes: self.content_length,
                    },
                );
                assert(event_views(events@) =~= seq![events@[0]@]);
                (TransferStep::ReadChunk, events)
            },
            Err(reason) => {
                self.failure = Some(
                    DownloadError::FileWriteFailed { path: self.partial.clone(), reason },
                );
                self.phase = TransferPhase::Discarding;
                (TransferStep::Discard { path: self.partial.clone() }, events)
            },
        }
    }

    /// Takes the answer to the flush.
    ///
    /// Once the file is flushed the digest is closed and reported, and the
    /// file is to be renamed to the destination. A flush that failed fails
    /// the transfer: the temporary file is to be removed.
    pub fn on_flushed(&mut self, flushed: Result<(), String>) -> (out: (
        TransferStep,
        Vec<ProgressEvent>,
    ))
        requires
            old(self).wf(),
            old(self)@.phase is Flushing,
        ensures
            final(self).wf(),
            final(self)@.wf(),
            match flushed {
                Ok(_) => {
                    &&& final(self)@ == (TransferView {
                        phase: TransferPhase::Renaming,
                        ..old(self)@
                    })
                    &&& out.0 matches TransferStep::Rename { from, to } && from@ == partial_path(
                        old(self)@.destination,
                    ) && to@ == old(self)@.destination
                    &&& event_views(out.1@) == seq![
                        ProgressEventView::HashingCompleted {
                            download_id: old(self)@.context.download_id,
                            episode_title: old(self)@.title,
                            hash: content_hash(old(self)@.received),
                        },
                        ProgressEventView::Finalizing {
                            download_id: old(self)@.context.download_id,
                            episode_title: old(self)@.title,
                        },
                    ]
                },
                Err(reason) => {
                    &&& final(self)@ == (TransferView {
                        phase: TransferPhase::Discarding,
                        ..old(self)@
                    })
                    &&& final(self).pending_failure() matches Some(
                        DownloadError::FileWriteFailed { path, reason: told },
                    ) && path@ == partial_path(old(self)@.destination) && told@ == reason@
                    &&& out.0 matches TransferStep::Discard { path } && path@ == partial_path(
                        old(self)@.destination,
                    )
                    &&& out.1@.len() == 0
                },
            },
    {
        let mut events: Vec<ProgressEvent> = Vec::new();
        match flushed {
            Ok(_) => {
                let hex = hasher_finish(&mut self.hasher);
                let mut hash = String::from_str("sha256:");
                push_text(&mut hash, hex.as_str());
                proof {
                    reveal_strlit("sha256:");
                }
                self.content_hash = hash.clone();
                self.phase = TransferPhase::Renaming;
                events.push(
                    ProgressEvent::HashingCompleted {
                        download_id: self.context.download_id,
                        episode_title: self.title.clone(),
                        hash,
                    },
                );
                events.push(
                    ProgressEvent::Finalizing {
                        download_id: self.context.download_id,
                        episode_title: self.title.clone(),
                    },
                );
                assert(event_views(events@) =~= seq![events@[0]@, events@[1]@]);
                (
                    TransferStep::Rename {
                        from: self.partial.clone(),
                        to: self.destination.clone(),
                    },
                    events,
                )
            },
            Err(reason) => {
                self.failure = Some(
                    DownloadError::FileWriteFailed { path: self.partial.clone(), reason },
                );
                self.phase = TransferPhase::Discarding;
                (TransferStep::Discard { path: self.partial.clone() }, events)
            },
        }
    }

    /// Takes the answer to the rename.
    ///
    /// With the rename the payload is committed: the transfer is over and
    /// hands out how many bytes were written and their content hash. A
    /// rename that failed fails the transfer: the temporary file is to be
    /// removed.
    pub fn on_renamed(&mut self, renamed: Result<(), String>) -> (out: (
        TransferStep,
        Vec<ProgressEvent>,
    ))
        requires
            old(self).wf(),
            old(self)@.phase is Renaming,
        ensures
            final(self).wf(),
            final(self)@.wf(),
            match renamed {
                Ok(_) => {
                    &&& final(self)@ == (TransferView {
                        phase: TransferPhase::Done,
                        partial_exists: false,
                        committed: true,
                        ..old(self)@
                    })
                    &&& out.0 matches TransferStep::Done(Ok(result)) && result.bytes_downloaded
                        == old(self)@.received.len() && result.content_hash@ == content_hash(
                        old(self)@.received,
                    ) && result.content_hash@.len() == CONTENT_HASH_LENGTH
                    &&& event_views(out.1@) == seq![
                        ProgressEventView::DownloadCompleted {
                            download_id: old(self)@.context.download_id,
                            episode_title: old(self)@.title,
                            bytes_downloaded: old(self)@.received.len() as u64,
                        },
                    ]
                },
                Err(reason) => {
                    &&& final(self)@ == (TransferView {
                        phase: TransferPhase::Discarding,
                        ..old(self)@
                    })
                    &&& final(self).pending_failure() matches Some(
                        DownloadError::RenameFailed {
                            partial_path: from,
                            final_path: to,
                            reason: told,
                        },
                    ) && from@ == partial_path(old(self)@.destination) && to@ == old(
                        self,
                    )@.destination && told@ == reason@
                    &&& out.0 matches TransferStep::Discard { path } && path@ == partial_path(
                        old(self)@.destination,
                    )
                    &&& out.1@.len() == 0
                },
            },
    {
        let mut events: Vec<ProgressEvent> = Vec::new();
        match renamed {
            Ok(_) => {
                self.phase = TransferPhase::Done;
                self.committed = true;
                events.push(
                    ProgressEvent::DownloadCompleted {
                        download_id: self.context.download_id,
                        episode_title: self.title.clone(),
                        bytes_downloaded: self.written,
                    },
                );
                assert(event_views(events@) =~= seq![events@[0]@]);
                let result = DownloadResult {
                    bytes_downloaded: self.written,
                    content_hash: self.content_hash.clone(),
                };
                (TransferStep::Done(Ok(result)), events)
            },
            Err(reason) => {
                self.failure = Some(
                    DownloadError::RenameFailed {
                        partial_path: self.partial.clone(),
                        final_path: self.destination.clone(),
                        reason,
                    },
                );
                self.phase = TransferPhase::Discarding;
                (TransferStep::Discard { path: self.partial.clone() }, events)
            },
        }
    }

    /// Takes note that the temporary file was removed, and hands out the
    /// failure that led to its removal: the transfer is over, and it has
    /// left nothing on disk.
    pub fn on_discarded(&mut self) -> (step: TransferStep)
        requires
            old(self).wf(),
            old(self)@.phase is Discarding,
        ensures
            final(self).wf(),
            final(self)@.wf(),
            final(self)@ == (TransferView {
                phase: TransferPhase::Done,
                partial_exists: false,
                ..old(self)@
            }),
            step matches TransferStep::Done(Err(error)) && Some(error) == old(
                self,
            ).pending_failure(),
    {
        self.phase = TransferPhase::Done;
        let error = self.failure.take().unwrap();
        TransferStep::Done(Err(error))
    }
}

/// No temporary file outlasts a transfer. When a transfer is over, whether
/// it succeeded or failed, its temporary file does not exist; and a payload
/// that is committed was written in full.
pub proof fn lemma_no_partial_left(t: TransferView)
    requires
        t.wf(),
        t.phase is Done,
    ensures
        !t.partial_exists,
        t.committed ==> t.written == t.received.len(),
{
}

} // verus!
