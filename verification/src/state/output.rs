//! What the output directory already holds.

use crate::episode::filename::{extension_text, stem_text};
use crate::episode::partial_path;
use crate::feed::Episode;
use crate::metadata::PODCAST_METADATA_FILENAME;
use crate::progress::{ProgressEvent, ProgressEventView};
use crate::text::{chars_of, ends_with, same_chars};
use vstd::prelude::*;

verus! {

/// What an entry of the output directory is, by its name.
#[derive(Debug, Clone, Copy, PartialEq, Eq, Structural)]
pub enum EntryKind {
    /// The temporary file of a transfer that was interrupted. It never
    /// holds valid content and is to be removed.
    Partial,
    /// The sidecar of an episode. It is to be read for the identity of the
    /// episode that it belongs to.
    EpisodeSidecar,
    /// Any other file, the sidecar of the podcast among them.
    Other,
}

/// What the caller did with an entry of the output directory.
#[derive(Debug, Clone)]
pub enum EntryReport {
    /// It tried to remove the entry; `removed` says whether it could.
    Removal { removed: bool },
    /// It read the entry as an episode's sidecar and found this identity.
    Sidecar { identity: Option<String> },
    /// It left the entry alone, or could not read it.
    Untouched,
}

/// The kind of the entry called `name`: a name that ends in `.partial` is a
/// temporary file; of the others, one that ends in `.json` and is not
/// `podcast.json` is an episode's sidecar.
pub open spec fn entry_kind(name: Seq<char>) -> EntryKind {
    if ".partial"@.is_suffix_of(name) {
        EntryKind::Partial
    } else if ".json"@.is_suffix_of(name) && name != "podcast.json"@ {
        EntryKind::EpisodeSidecar
    } else {
        EntryKind::Other
    }
}

/// Decides [`entry_kind`].
pub fn classify_entry(filename: &str) -> (kind: EntryKind)
    ensures
        kind == entry_kind(filename@),
{
    let name = chars_of(filename);
    if ends_with(&name, &chars_of(".partial")) {
        EntryKind::Partial
    } else if ends_with(&name, &chars_of(".json")) && !same_chars(
        &name,
        &chars_of("podcast.json"),
    ) {
        EntryKind::EpisodeSidecar
    } else {
        EntryKind::Other
    }
}

/// State of the output directory.
///
/// `downloaded_guids` holds the identities of the episodes whose sidecar was
/// found and read, `existing_files` the names of the files that were kept.
/// Both are sets, kept as lists in which no entry occurs twice
/// ([`OutputState::wf`]): what a hash set of strings holds rests on how
/// strings are hashed, of which nothing is known here, while a list can be
/// searched and the search proved.
#[derive(Debug, Clone)]
pub struct OutputState {
    pub downloaded_guids: Vec<String>,
    pub existing_files: Vec<String>,
    pub output_dir: String,
    pub partial_files_cleaned: usize,
}

/// Whether `names` holds a string that reads `text`.
pub open spec fn holds_text(names: Seq<String>, text: Seq<char>) -> bool {
    exists|i: int| 0 <= i < names.len() && (#[trigger] names[i])@ == text
}

/// The set of the texts that `names` holds.
pub open spec fn text_set(names: Seq<String>) -> Set<Seq<char>> {
    Set::new(|t: Seq<char>| holds_text(names, t))
}

/// Whether no two entries of `names` read the same.
pub open spec fn distinct_texts(names: Seq<String>) -> bool {
    forall|i: int, j: int|
        0 <= i < j < names.len() ==> (#[trigger] names[i])@ != (#[trigger] names[j])@
}

/// Decides [`holds_text`].
pub fn contains_text(names: &Vec<String>, text: &String) -> (r: bool)
    ensures
        r == holds_text(names@, text@),
{
    let mut i: usize = 0;
    while i < names.len()
        invariant
            i <= names.len(),
            forall|k: int| 0 <= k < i ==> (#[trigger] names@[k])@ != text@,
        decreases names.len() - i,
    {
        if names[i] == *text {
            return true;
        }
        i += 1;
    }
    false
}

impl OutputState {
    /// The identities of the episodes that are already downloaded.
    pub open spec fn identities(self) -> Set<Seq<char>> {
        text_set(self.downloaded_guids@)
    }

    /// The names of the files that the directory holds.
    pub open spec fn files(self) -> Set<Seq<char>> {
        text_set(self.existing_files@)
    }

    /// Whether the episode is already present: it carries an identity, and
    /// that identity is among the downloaded ones.
    pub open spec fn has_episode(self, episode: Episode) -> bool {
        match episode.identity() {
            Some(id) => self.identities().contains(id),
            None => false,
        }
    }

    /// Decides [`OutputState::has_episode`].
    pub fn is_downloaded(&self, episode: &Episode) -> (r: bool)
        ensures
            r == self.has_episode(*episode),
    {
        match &episode.guid {
            Some(guid) => contains_text(&self.downloaded_guids, guid),
            None => false,
        }
    }

    /// Whether the state is that of a scan: no identity and no file name
    /// occurs twice, and no temporary file is among the files.
    pub open spec fn wf(self) -> bool {
        &&& distinct_texts(self.downloaded_guids@)
        &&& distinct_texts(self.existing_files@)
        &&& forall|i: int|
            0 <= i < self.existing_files@.len() ==> !(entry_kind(
                (#[trigger] self.existing_files@[i])@,
            ) is Partial)
    }

    /// The state of a directory that holds nothing: the state with which a
    /// scan begins, and that of a directory which was just created.
    pub fn new(output_dir: String) -> (state: OutputState)
        ensures
            state.wf(),
            state.output_dir == output_dir,
            state.identities() == Set::<Seq<char>>::empty(),
            state.files() == Set::<Seq<char>>::empty(),
            state.partial_files_cleaned == 0,
    {
        let state = OutputState {
            downloaded_guids: Vec::new(),
            existing_files: Vec::new(),
            output_dir,
            partial_files_cleaned: 0,
        };
        assert(state.identities() =~= Set::<Seq<char>>::empty());
        assert(state.files() =~= Set::<Seq<char>>::empty());
        state
    }

    /// The summary of the cleanup to report: the number of temporary files
    /// that were removed, if there were any.
    pub fn cleanup_event(&self) -> (event: Option<ProgressEvent>)
        ensures
            (match event {
                Some(e) => Some(e@),
                None => None,
            }) == if self.partial_files_cleaned > 0 {
                Some(ProgressEventView::PartialFilesCleanedUp { count: self.partial_files_cleaned })
            } else {
                None
            },
    {
        if self.partial_files_cleaned > 0 {
            Some(ProgressEvent::PartialFilesCleanedUp { count: self.partial_files_cleaned })
        } else {
            None
        }
    }

    /// Whether the entry `filename` with the report `report` stands for a
    /// temporary file that was removed.
    pub open spec fn cleans(filename: Seq<char>, report: EntryReport) -> bool {
        entry_kind(filename) is Partial && report matches EntryReport::Removal { removed: true }
    }

    /// The identity that the entry `filename` with the report `report`
    /// gives: that of an episode's sidecar which was read and holds one.
    pub open spec fn identity_given(filename: Seq<char>, report: EntryReport) -> Option<
        Seq<char>,
    > {
        if entry_kind(filename) is EpisodeSidecar {
            match report {
                EntryReport::Sidecar { identity: Some(id) } => Some(id@),
                _ => None,
            }
        } else {
            None
        }
    }

    /// Takes one entry of the directory into the state.
    ///
    /// A temporary file is counted if it was removed and is never listed
    /// among the files. Every other entry is listed; an episode's sidecar
    /// that was read adds the identity it holds. A sidecar that could not
    /// be read adds none: its episode counts as not downloaded.
    pub fn record_entry(&mut self, filename: String, report: EntryReport)
        requires
            old(self).wf(),
            Self::cleans(filename@, report) ==> old(self).partial_files_cleaned < usize::MAX,
        ensures
            final(self).wf(),
            final(self).output_dir == old(self).output_dir,
            final(self).partial_files_cleaned == old(self).partial_files_cleaned + if Self::cleans(
                filename@,
                report,
            ) {
                1int
            } else {
                0int
            },
            final(self).files() == if entry_kind(filename@) is Partial {
                old(self).files()
            } else {
                old(self).files().insert(filename@)
            },
            final(self).identities() == match Self::identity_given(filename@, report) {
                Some(id) => old(self).identities().insert(id),
                None => old(self).identities(),
            },
    {
        let kind = classify_entry(filename.as_str());
        match kind {
            EntryKind::Partial => {
                if let EntryReport::Removal { removed: true } = report {
                    self.partial_files_cleaned = self.partial_files_cleaned + 1;
                }
            },
            _ => {
                insert_text(&mut self.existing_files, filename);
                if let EntryKind::EpisodeSidecar = kind {
                    if let EntryReport::Sidecar { identity: Some(id) } = report {
                        insert_text(&mut self.downloaded_guids, id);
                    }
                }
            },
        }
    }
}

/// How many entries of a listing stand for a temporary file that was
/// removed.
pub open spec fn cleaned_in(entries: Seq<(String, EntryReport)>) -> nat
    decreases entries.len(),
{
    if entries.len() == 0 {
        0
    } else {
        cleaned_in(entries.drop_last()) + if OutputState::cleans(
            entries.last().0@,
            entries.last().1,
        ) {
            1nat
        } else {
            0nat
        }
    }
}

/// The names of a listing that are kept: all but those of temporary files.
pub open spec fn files_in(entries: Seq<(String, EntryReport)>) -> Set<Seq<char>> {
    Set::new(
        |name: Seq<char>|
            !(entry_kind(name) is Partial) && exists|i: int|
                0 <= i < entries.len() && (#[trigger] entries[i]).0@ == name,
    )
}

/// The identities that the sidecars of a listing give.
pub open spec fn identities_in(entries: Seq<(String, EntryReport)>) -> Set<Seq<char>> {
    Set::new(
        |id: Seq<char>|
            exists|i: int|
                0 <= i < entries.len() && OutputState::identity_given(
                    (#[trigger] entries[i]).0@,
                    entries[i].1,
                ) == Some(id),
    )
}

/// The test for the entries of a listing that are temporary files.
pub open spec fn partial_entry() -> spec_fn((String, EntryReport)) -> bool {
    |entry: (String, EntryReport)| entry_kind(entry.0@) is Partial
}

/// No more temporary files were removed than the listing has entries.
proof fn lemma_cleaned_in_bound(entries: Seq<(String, EntryReport)>)
    ensures
        cleaned_in(entries) <= entries.len(),
    decreases entries.len(),
{
    if entries.len() > 0 {
        lemma_cleaned_in_bound(entries.drop_last());
    }
}

/// What one more entry adds to the names and the identities of a listing.
proof fn lemma_listing_next(entries: Seq<(String, EntryReport)>, i: int)
    requires
        0 <= i < entries.len(),
    ensures
        cleaned_in(entries.take(i + 1)) == cleaned_in(entries.take(i)) + if OutputState::cleans(
            entries[i].0@,
            entries[i].1,
        ) {
            1nat
        } else {
            0nat
        },
        files_in(entries.take(i + 1)) == if entry_kind(entries[i].0@) is Partial {
            files_in(entries.take(i))
        } else {
            files_in(entries.take(i)).insert(entries[i].0@)
        },
        identities_in(entries.take(i + 1)) == match OutputState::identity_given(
            entries[i].0@,
            entries[i].1,
        ) {
            Some(id) => identities_in(entries.take(i)).insert(id),
            None => identities_in(entries.take(i)),
        },
{
    let before = entries.take(i);
    let after = entries.take(i + 1);
    assert(after.drop_last() =~= before);
    assert(after.last() == entries[i]);
    let name = entries[i].0@;
    let files = if entry_kind(name) is Partial {
        files_in(before)
    } else {
        files_in(before).insert(name)
    };
    assert forall|n: Seq<char>| files_in(after).contains(n) == files.contains(n) by {
        if files_in(after).contains(n) {
            let k = choose|k: int| 0 <= k < after.len() && (#[trigger] after[k]).0@ == n;
            if k < i {
                assert(before[k].0@ == n);
            }
        }
        if files_in(before).contains(n) {
            let k = choose|k: int| 0 <= k < before.len() && (#[trigger] before[k]).0@ == n;
            assert(after[k].0@ == n);
        }
        if n == name && !(entry_kind(name) is Partial) {
            assert(after[i].0@ == n);
        }
    }
    assert(files_in(after) =~= files);
    let given = OutputState::identity_given(name, entries[i].1);
    let identities = match given {
        Some(id) => identities_in(before).insert(id),
        None => identities_in(before),
    };
    assert forall|id: Seq<char>| identities_in(after).contains(id) == identities.contains(id) by {
        if identities_in(after).contains(id) {
            let k = choose|k: int|
                0 <= k < after.len() && OutputState::identity_given(
                    (#[trigger] after[k]).0@,
                    after[k].1,
                ) == Some(id);
            if k < i {
                assert(OutputState::identity_given(before[k].0@, before[k].1) == Some(id));
            }
        }
        if identities_in(before).contains(id) {
            let k = choose|k: int|
                0 <= k < before.len() && OutputState::identity_given(
                    (#[trigger] before[k]).0@,
                    before[k].1,
                ) == Some(id);
            assert(OutputState::identity_given(after[k].0@, after[k].1) == Some(id));
        }
        if given == Some(id) {
            assert(OutputState::identity_given(after[i].0@, after[i].1) == Some(id));
        }
    }
    assert(identities_in(after) =~= identities);
}

impl OutputState {
    /// The state that a whole listing of the directory gives: every entry
    /// is taken in as [`OutputState::record_entry`] takes it. The temporary
    /// files that were removed are counted, every other name is listed, and
    /// the identities are those that the episodes' sidecars give.
    pub fn from_listing(output_dir: String, entries: Vec<(String, EntryReport)>) -> (state:
        OutputState)
        ensures
            state.wf(),
            state.output_dir == output_dir,
            state.partial_files_cleaned == cleaned_in(entries@),
            state.files() == files_in(entries@),
            state.identities() == identities_in(entries@),
    {
        let ghost all = entries@;
        let mut state = OutputState::new(output_dir);
        assert(entries.len() <= usize::MAX);
        proof {
            assert(files_in(all.take(0)) =~= Set::<Seq<char>>::empty());
            assert(identities_in(all.take(0)) =~= Set::<Seq<char>>::empty());
        }
        for entry in it: entries
            invariant
                it.seq() == all,
                all.len() <= usize::MAX,
                state.wf(),
                state.output_dir == output_dir,
                state.partial_files_cleaned == cleaned_in(all.take(it.index())),
                state.files() == files_in(all.take(it.index())),
                state.identities() == identities_in(all.take(it.index())),
        {
            proof {
                lemma_listing_next(all, it.index());
                lemma_cleaned_in_bound(all.take(it.index()));
            }
            let (filename, report) = entry;
            state.record_entry(filename, report);
        }
        assert(all.take(all.len() as int) =~= all);
        state
    }
}

/// A scan cleans up what interrupted runs have left. Where every temporary
/// file of a listing could be removed, the scan counts as many removed
/// files as the listing has names that end in `.partial`, lists every
/// other name of the listing, and lists no name that ends in `.partial`.
pub proof fn lemma_listing_is_cleaned(entries: Seq<(String, EntryReport)>)
    requires
        forall|i: int|
            0 <= i < entries.len() && entry_kind((#[trigger] entries[i]).0@) is Partial
                ==> entries[i].1 matches EntryReport::Removal { removed: true },
    ensures
        cleaned_in(entries) == entries.filter(partial_entry()).len(),
        forall|i: int|
            0 <= i < entries.len() ==> files_in(entries).contains((#[trigger] entries[i]).0@)
                == !".partial"@.is_suffix_of(entries[i].0@),
        forall|name: Seq<char>|
            files_in(entries).contains(name) ==> !".partial"@.is_suffix_of(name) && exists|i: int|
                0 <= i < entries.len() && (#[trigger] entries[i]).0@ == name,
    decreases entries.len(),
{
    reveal(Seq::filter);
    if entries.len() > 0 {
        let init = entries.drop_last();
        assert forall|i: int| 0 <= i < init.len() implies #[trigger] init[i] == entries[i] by {}
        lemma_listing_is_cleaned(init);
    }
}

/// Adds `text` to `names` unless `names` holds a string that reads the
/// same.
pub fn insert_text(names: &mut Vec<String>, text: String)
    requires
        distinct_texts(old(names)@),
    ensures
        distinct_texts(final(names)@),
        text_set(final(names)@) == text_set(old(names)@).insert(text@),
        final(names)@ == if holds_text(old(names)@, text@) {
            old(names)@
        } else {
            old(names)@.push(text)
        },
{
    if !contains_text(names, &text) {
        names.push(text);
        assert forall|t: Seq<char>| text_set(names@).contains(t) == text_set(old(names)@).insert(
            text@,
        ).contains(t) by {
            if holds_text(names@, t) {
                let i = choose|i: int| 0 <= i < names@.len() && (#[trigger] names@[i])@ == t;
                if i < old(names)@.len() {
                    assert(old(names)@[i]@ == t);
                }
            }
            if holds_text(old(names)@, t) {
                let i = choose|i: int|
                    0 <= i < old(names)@.len() && (#[trigger] old(names)@[i])@ == t;
                assert(names@[i]@ == t);
            }
            if t == text@ {
                assert(names@[names@.len() - 1]@ == t);
            }
        }
        assert(text_set(names@) =~= text_set(old(names)@).insert(text@));
    } else {
        assert(text_set(names@) =~= text_set(old(names)@).insert(text@));
    }
}

/// A temporary file that an interrupted transfer has left behind is taken
/// for what it is by the next scan: it is to be removed, and a scan that
/// removes it counts it and does not list it.
pub proof fn lemma_partial_is_cleaned(destination: Seq<char>)
    ensures
        entry_kind(partial_path(destination)) is Partial,
{
    reveal_strlit(".partial");
    let name = partial_path(destination);
    assert(name.subrange(name.len() - ".partial"@.len(), name.len() as int) =~= ".partial"@);
}

/// The sidecar of the podcast is kept by a scan and is not read for an
/// identity.
pub proof fn lemma_podcast_sidecar_is_kept()
    ensures
        entry_kind(PODCAST_METADATA_FILENAME@) is Other,
{
    reveal_strlit("podcast.json");
    reveal_strlit(".partial");
    let name = "podcast.json"@;
    if ".partial"@.is_suffix_of(name) {
        assert(name.subrange(name.len() - 8, name.len() as int)[7] == 'l');
    }
}

/// The sidecar of an episode is read by the next scan: the name that a
/// file name's stem and `.json` make is that of an episode's sidecar,
/// whatever the day and the title.
pub proof fn lemma_sidecar_is_scanned(day: Option<Seq<char>>, title: Seq<char>)
    ensures
        entry_kind(stem_text(day, title) + ".json"@) is EpisodeSidecar,
{
    reveal_strlit(".partial");
    reveal_strlit(".json");
    reveal_strlit("podcast.json");
    reveal_strlit("-");
    let stem = stem_text(day, title);
    let name = stem + ".json"@;
    assert(name.subrange(name.len() - 5, name.len() as int) =~= ".json"@);
    if ".partial"@.is_suffix_of(name) {
        assert(name.subrange(name.len() - 8, name.len() as int)[7] == 'l');
    }
    let dash = stem.len() - title.len() - 1;
    assert(name[dash] == '-');
}

/// The payload of an episode is kept by the next scan: the name that a
/// file name's stem and an audio extension make is neither that of a
/// temporary file nor that of a sidecar.
pub proof fn lemma_payload_is_kept(
    stem: Seq<char>,
    segments: Option<Seq<Seq<char>>>,
    mime_type: Option<Seq<char>>,
)
    ensures
        entry_kind(stem + "."@ + extension_text(segments, mime_type)) is Other,
{
    reveal_strlit(".partial");
    reveal_strlit(".json");
    let ext = extension_text(segments, mime_type);
    let name = stem + "."@ + ext;
    lemma_extension_end(segments, mime_type);
    assert(name.last() == ext.last());
    if ".partial"@.is_suffix_of(name) {
        assert(name.subrange(name.len() - 8, name.len() as int)[7] == 'l');
    }
    if ".json"@.is_suffix_of(name) {
        assert(name.subrange(name.len() - 5, name.len() as int)[4] == 'n');
    }
}

/// No audio extension ends as `.partial` or `.json` end.
proof fn lemma_extension_end(segments: Option<Seq<Seq<char>>>, mime_type: Option<Seq<char>>)
    ensures
        extension_text(segments, mime_type).len() > 0,
        extension_text(segments, mime_type).last() != 'l',
        extension_text(segments, mime_type).last() != 'n',
{
    reveal_strlit("mp3");
    reveal_strlit("m4a");
    reveal_strlit("mp4");
    reveal_strlit("aac");
    reveal_strlit("ogg");
    reveal_strlit("opus");
    reveal_strlit("wav");
    reveal_strlit("flac");
}

} // verus!
