//! The errors of a synchronisation run.
//!
//! Where an error was raised by the operating system or by the transport,
//! `reason` holds that cause as the caller described it.

use crate::text::{push_decimal, push_text};
use vstd::prelude::*;
use vstd::string::StringExecFns;

verus! {

/// The error with which `rss` refuses a document.
#[verifier::external_type_specification]
#[verifier::external_body]
pub struct ExRssError(rss::Error);

/// The error with which `url` refuses a text.
#[verifier::external_type_specification]
#[verifier::external_body]
pub struct ExUrlParseError(url::ParseError);

/// Errors that can occur when fetching or parsing a feed.
#[derive(Debug)]
pub enum FeedError {
    FetchFailed { url: String, reason: String },
    FileReadFailed { path: String, reason: String },
    /// The document is no feed.
    ParseFailed(rss::Error),
    /// A text that has to be a URL is none.
    InvalidUrl(url::ParseError),
    MissingEnclosure { title: String },
    InvalidDate { date_str: String, reason: String },
}

/// Errors that end a whole synchronisation run.
#[derive(Debug)]
pub enum SyncError {
    Feed(FeedError),
    State(StateError),
    /// Downloads were to stop at the first failure, and nothing succeeded.
    AllDownloadsFailed,
}

/// Errors that can occur during an episode's download.
#[derive(Debug, Clone)]
pub enum DownloadError {
    /// The request could not be made or was not answered.
    HttpFailed { url: String, reason: String },
    /// The server answered with a status that is no success.
    HttpStatus { url: String, status: u16 },
    /// The temporary file could not be created.
    FileCreateFailed { path: String, reason: String },
    /// A chunk could not be written, or the file could not be flushed.
    FileWriteFailed { path: String, reason: String },
    /// The response body broke off.
    StreamFailed { url: String, reason: String },
    /// The temporary file could not be moved to its final name.
    RenameFailed { partial_path: String, final_path: String, reason: String },
}

/// Errors that can occur during metadata operations.
#[derive(Debug, Clone)]
pub enum MetadataError {
    ReadFailed { path: String, reason: String },
    WriteFailed { path: String, reason: String },
    JsonParseFailed { path: String, reason: String },
    JsonSerializeFailed(String),
}

/// Errors that can occur when scanning the output directory.
#[derive(Debug, Clone)]
pub enum StateError {
    DirectoryNotFound(String),
    ReadDirectoryFailed { path: String, reason: String },
    CreateDirectoryFailed { path: String, reason: String },
    Metadata(MetadataError),
}

/// `head`, `subject`, a colon and a space, and `reason`.
pub open spec fn caused(head: Seq<char>, subject: Seq<char>, reason: Seq<char>) -> Seq<char> {
    head + subject + ": "@ + reason
}

/// Builds [`caused`].
fn caused_text(head: &str, subject: &String, reason: &String) -> (s: String)
    ensures
        s@ == caused(head@, subject@, reason@),
{
    let mut s = String::from_str(head);
    push_text(&mut s, subject.as_str());
    push_text(&mut s, ": ");
    push_text(&mut s, reason.as_str());
    s
}

/// The words in which `rss` describes an error: what its `Display` writes.
pub uninterp spec fn rss_error_words(error: rss::Error) -> Seq<char>;

/// The words in which `url` describes an error: what its `Display` writes.
pub uninterp spec fn url_error_words(error: url::ParseError) -> Seq<char>;

/// `Display` of `rss::Error`: the error in the words of `rss`, which are
/// [`rss_error_words`] of it.
#[verifier::external_body]
fn rss_error_text(error: &rss::Error) -> (text: String)
    ensures
        text@ == rss_error_words(*error),
{
    error.to_string()
}

/// `Display` of `url::ParseError`: the error in the words of `url`, which
/// are [`url_error_words`] of it.
#[verifier::external_body]
fn url_error_text(error: &url::ParseError) -> (text: String)
    ensures
        text@ == url_error_words(*error),
{
    error.to_string()
}

impl FeedError {
    /// The error in words.
    pub open spec fn message_text(self) -> Seq<char> {
        match self {
            FeedError::FetchFailed { url, reason } => caused(
                "Failed to fetch feed from "@,
                url@,
                reason@,
            ),
            FeedError::FileReadFailed { path, reason } => caused(
                "Failed to read feed file "@,
                path@,
                reason@,
            ),
            FeedError::ParseFailed(inner) => "Failed to parse RSS feed: "@ + rss_error_words(
                inner,
            ),
            FeedError::InvalidUrl(inner) => "Invalid feed URL: "@ + url_error_words(inner),
            FeedError::MissingEnclosure { title } => "Episode '"@ + title@
                + "' has no enclosure (audio file)"@,
            FeedError::InvalidDate { date_str, reason } => "Failed to parse date '"@ + date_str@
                + "': "@ + reason@,
        }
    }

    /// Describes the error in words.
    pub fn message(&self) -> (s: String)
        ensures
            s@ == self.message_text(),
    {
        match self {
            FeedError::FetchFailed { url, reason } => caused_text(
                "Failed to fetch feed from ",
                url,
                reason,
            ),
            FeedError::FileReadFailed { path, reason } => caused_text(
                "Failed to read feed file ",
                path,
                reason,
            ),
            FeedError::ParseFailed(inner) => {
                let mut s = String::from_str("Failed to parse RSS feed: ");
                let detail = rss_error_text(inner);
                push_text(&mut s, detail.as_str());
                s
            },
            FeedError::InvalidUrl(inner) => {
                let mut s = String::from_str("Invalid feed URL: ");
                let detail = url_error_text(inner);
                push_text(&mut s, detail.as_str());
                s
            },
            FeedError::MissingEnclosure { title } => {
                let mut s = String::from_str("Episode '");
                push_text(&mut s, title.as_str());
                push_text(&mut s, "' has no enclosure (audio file)");
                s
            },
            FeedError::InvalidDate { date_str, reason } => {
                let mut s = String::from_str("Failed to parse date '");
                push_text(&mut s, date_str.as_str());
                push_text(&mut s, "': ");
                push_text(&mut s, reason.as_str());
                s
            },
        }
    }
}

impl SyncError {
    /// The error in words.
    pub open spec fn message_text(self) -> Seq<char> {
        match self {
            SyncError::Feed(inner) => "Feed error: "@ + inner.message_text(),
            SyncError::State(inner) => "State error: "@ + inner.message_text(),
            SyncError::AllDownloadsFailed => "All downloads failed"@,
        }
    }

    /// Describes the error in words.
    pub fn message(&self) -> (s: String)
        ensures
            s@ == self.message_text(),
    {
        match self {
            SyncError::Feed(inner) => {
                let mut s = String::from_str("Feed error: ");
                let detail = inner.message();
                push_text(&mut s, detail.as_str());
                s
            },
            SyncError::State(inner) => {
                let mut s = String::from_str("State error: ");
                let detail = inner.message();
                push_text(&mut s, detail.as_str());
                s
            },
            SyncError::AllDownloadsFailed => String::from_str("All downloads failed"),
        }
    }
}

impl DownloadError {
    /// The error in words.
    pub open spec fn message_text(self) -> Seq<char> {
        match self {
            DownloadError::HttpFailed { url, reason } => caused(
                "HTTP request failed for "@,
                url@,
                reason@,
            ),
            DownloadError::HttpStatus { url, status } => "HTTP error "@ + crate::text::decimal(
                status as nat,
            ) + " for "@ + url@,
            DownloadError::FileCreateFailed { path, reason } => caused(
                "Failed to create file "@,
                path@,
                reason@,
            ),
            DownloadError::FileWriteFailed { path, reason } => caused(
                "Failed to write to file "@,
                path@,
                reason@,
            ),
            DownloadError::StreamFailed { url, reason } => caused(
                "Stream error while downloading "@,
                url@,
                reason@,
            ),
            DownloadError::RenameFailed { partial_path, final_path, reason } => caused(
                "Failed to rename "@ + partial_path@ + " to "@,
                final_path@,
                reason@,
            ),
        }
    }

    /// Describes the error in words.
    pub fn message(&self) -> (s: String)
        ensures
            s@ == self.message_text(),
    {
        match self {
            DownloadError::HttpFailed { url, reason } => caused_text(
                "HTTP request failed for ",
                url,
                reason,
            ),
            DownloadError::HttpStatus { url, status } => {
                let mut s = String::from_str("HTTP error ");
                push_decimal(&mut s, *status as u64);
                push_text(&mut s, " for ");
                push_text(&mut s, url.as_str());
                s
            },
            DownloadError::FileCreateFailed { path, reason } => caused_text(
                "Failed to create file ",
                path,
                reason,
            ),
            DownloadError::FileWriteFailed { path, reason } => caused_text(
                "Failed to write to file ",
                path,
                reason,
            ),
            DownloadError::StreamFailed { url, reason } => caused_text(
                "Stream error while downloading ",
                url,
                reason,
            ),
            DownloadError::RenameFailed { partial_path, final_path, reason } => {
                let mut head = String::from_str("Failed to rename ");
                push_text(&mut head, partial_path.as_str());
                push_text(&mut head, " to ");
                caused_text(head.as_str(), final_path, reason)
            },
        }
    }
}

impl MetadataError {
    /// The error in words.
    pub open spec fn message_text(self) -> Seq<char> {
        match self {
            MetadataError::ReadFailed { path, reason } => caused(
                "Failed to read metadata file "@,
                path@,
                reason@,
            ),
            MetadataError::WriteFailed { path, reason } => caused(
                "Failed to write metadata file "@,
                path@,
                reason@,
            ),
            MetadataError::JsonParseFailed { path, reason } => caused(
                "Failed to parse metadata JSON in "@,
                path@,
                reason@,
            ),
            MetadataError::JsonSerializeFailed(reason) => "Failed to serialize metadata: "@
                + reason@,
        }
    }

    /// Describes the error in words.
    pub fn message(&self) -> (s: String)
        ensures
            s@ == self.message_text(),
    {
        match self {
            MetadataError::ReadFailed { path, reason } => caused_text(
                "Failed to read metadata file ",
                path,
                reason,
            ),
            MetadataError::WriteFailed { path, reason } => caused_text(
                "Failed to write metadata file ",
                path,
                reason,
            ),
            MetadataError::JsonParseFailed { path, reason } => caused_text(
                "Failed to parse metadata JSON in ",
                path,
                reason,
            ),
            MetadataError::JsonSerializeFailed(reason) => {
                let mut s = String::from_str("Failed to serialize metadata: ");
                push_text(&mut s, reason.as_str());
                s
            },
        }
    }
}

impl StateError {
    /// The error in words.
    pub open spec fn message_text(self) -> Seq<char> {
        match self {
            StateError::DirectoryNotFound(path) => "Output directory does not exist: "@ + path@,
            StateError::ReadDirectoryFailed { path, reason } => caused(
                "Failed to read directory "@,
                path@,
                reason@,
            ),
            StateError::CreateDirectoryFailed { path, reason } => caused(
                "Failed to create directory "@,
                path@,
                reason@,
            ),
            StateError::Metadata(inner) => "Metadata error: "@ + inner.message_text(),
        }
    }

    /// Describes the error in words.
    pub fn message(&self) -> (s: String)
        ensures
            s@ == self.message_text(),
    {
        match self {
            StateError::DirectoryNotFound(path) => {
                let mut s = String::from_str("Output directory does not exist: ");
                push_text(&mut s, path.as_str());
                s
            },
            StateError::ReadDirectoryFailed { path, reason } => caused_text(
                "Failed to read directory ",
                path,
                reason,
            ),
            StateError::CreateDirectoryFailed { path, reason } => caused_text(
                "Failed to create directory ",
                path,
                reason,
            ),
            StateError::Metadata(inner) => {
                let mut s = String::from_str("Metadata error: ");
                let detail = inner.message();
                push_text(&mut s, detail.as_str());
                s
            },
        }
    }
}

/// The message of a download that was refused carries the status: for a
/// response with the status 404 it reads `HTTP error 404 for` and the
/// address.
pub proof fn lemma_not_found_message(url: String)
    ensures
        (DownloadError::HttpStatus { url, status: 404 }).message_text() == "HTTP error 404 for "@
            + url@,
{
    reveal_strlit("HTTP error ");
    reveal_strlit(" for ");
    reveal_strlit("HTTP error 404 for ");
    assert(crate::text::decimal(4) =~= seq!['4']);
    assert(crate::text::decimal(40) =~= seq!['4', '0']);
    assert(crate::text::decimal(404) =~= seq!['4', '0', '4']);
    assert("HTTP error "@ + crate::text::decimal(404) + " for "@ =~= "HTTP error 404 for "@);
}

} // verus!
