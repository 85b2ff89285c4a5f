//! The file name under which an episode is kept.
//!
//! A name is the publication day, a dash, the tidied title, a dot and the
//! audio extension: `2024-01-15-My Episode.mp3`. An episode without a date
//! has `undated` in place of the day.

use crate::feed::{text_view, Episode, PubDate};
use crate::text::{
    ascii_lowered, chars_of, exceeds_bytes, is_white_space, is_whitespace, lemma_trim_end,
    lemma_trim_start, push_text, reads_as, text_of_range, trim, trim_end, trim_start, utf8_len,
};
use vstd::prelude::*;
use vstd::string::StringExecFns;

verus! {

/// The longest title, in bytes, that goes into a file name uncut.
pub const MAX_TITLE_LENGTH: usize = 100;

/// A kind of character that separates words.
#[derive(Debug, Clone, Copy, PartialEq, Eq, Structural)]
pub enum SeparatorType {
    Whitespace,
    Dash,
    Underscore,
}

impl SeparatorType {
    /// The kind of separator that `c` is, if it is one.
    pub open spec fn of(c: char) -> Option<SeparatorType> {
        if is_white_space(c) {
            Some(SeparatorType::Whitespace)
        } else if c == '-' {
            Some(SeparatorType::Dash)
        } else if c == '_' {
            Some(SeparatorType::Underscore)
        } else {
            None
        }
    }

    /// The character that stands for a run of separators of this kind.
    pub open spec fn canonical(self) -> char {
        match self {
            SeparatorType::Whitespace => ' ',
            SeparatorType::Dash => '-',
            SeparatorType::Underscore => '_',
        }
    }

    /// Decides [`SeparatorType::of`].
    pub fn from_char(c: char) -> (kind: Option<SeparatorType>)
        ensures
            kind == Self::of(c),
    {
        if is_whitespace(c) {
            Some(SeparatorType::Whitespace)
        } else if c == '-' {
            Some(SeparatorType::Dash)
        } else if c == '_' {
            Some(SeparatorType::Underscore)
        } else {
            None
        }
    }

    /// Decides [`SeparatorType::canonical`].
    pub fn canonical_char(self) -> (c: char)
        ensures
            c == self.canonical(),
    {
        match self {
            SeparatorType::Whitespace => ' ',
            SeparatorType::Dash => '-',
            SeparatorType::Underscore => '_',
        }
    }
}

/// `s` with every run of separators of one kind collapsed to the one
/// character that stands for the kind. A separator is dropped if the
/// character before it is a separator of the same kind; one that stays is
/// written as its kind's character; nothing else changes.
pub open spec fn collapsed(s: Seq<char>) -> Seq<char>
    decreases s.len(),
{
    if s.len() == 0 {
        s
    } else {
        let before = collapsed(s.drop_last());
        match SeparatorType::of(s.last()) {
            Some(kind) => if s.len() >= 2 && SeparatorType::of(s[s.len() - 2]) == Some(kind) {
                before
            } else {
                before.push(kind.canonical())
            },
            None => before.push(s.last()),
        }
    }
}

/// Collapses consecutive separators of the same kind: white space to one
/// space, dashes to one dash, underscores to one underscore.
pub fn collapse_separators(s: &str) -> (r: String)
    ensures
        r@ == collapsed(s@),
{
    let mut result = String::new();
    let mut last: Option<SeparatorType> = None;
    for c in it: s.chars()
        invariant
            it.seq() == s@,
            result@ == collapsed(s@.take(it.index())),
            last == if it.index() == 0 {
                None
            } else {
                SeparatorType::of(s@[it.index() - 1])
            },
    {
        proof {
            let upto = s@.take(it.index() + 1);
            assert(upto.drop_last() =~= s@.take(it.index()));
            assert(upto.last() == c);
            if it.index() > 0 {
                assert(upto[upto.len() - 2] == s@[it.index() - 1]);
            }
        }
        let current = SeparatorType::from_char(c);
        match current {
            Some(kind) => {
                let repeated = match last {
                    Some(previous) => previous == kind,
                    None => false,
                };
                if !repeated {
                    result.push(kind.canonical_char());
                }
            },
            None => {
                result.push(c);
            },
        }
        last = current;
    }
    assert(s@.take(s@.len() as int) =~= s@);
    result
}

/// The test for a dash.
pub open spec fn dash() -> spec_fn(char) -> bool {
    |c: char| c == '-'
}

/// The test for the characters that are cut from the ends of a title:
/// dashes and white space.
pub open spec fn title_edge() -> spec_fn(char) -> bool {
    |c: char| c == '-' || is_white_space(c)
}

/// The index of the last `c` in `s`, if there is one.
pub open spec fn last_index(s: Seq<char>, c: char) -> Option<int>
    decreases s.len(),
{
    if s.len() == 0 {
        None
    } else if s.last() == c {
        Some(s.len() - 1)
    } else {
        last_index(s.drop_last(), c)
    }
}

/// `s` cut to at most `max_len` characters, at a word boundary where there
/// is one.
///
/// A text of at most `max_len` bytes stays as it is. A longer one is cut to
/// its first `max_len` characters. If the last dash among them lies behind
/// more than `max_len / 2` bytes, the text ends before that dash; if not,
/// the dashes at the end of the cut are dropped.
pub open spec fn truncated(s: Seq<char>, max_len: nat) -> Seq<char> {
    if utf8_len(s) <= max_len {
        s
    } else {
        let cut = s.take(if max_len <= s.len() {
            max_len as int
        } else {
            s.len() as int
        });
        match last_index(cut, '-') {
            Some(pos) if utf8_len(cut.take(pos)) > max_len / 2 => cut.take(pos),
            _ => trim_end(cut, dash()),
        }
    }
}

/// Where the last `c` of `s` stands.
proof fn lemma_last_index(s: Seq<char>, c: char, k: int)
    requires
        0 <= k <= s.len(),
        forall|i: int| k <= i < s.len() ==> #[trigger] s[i] != c,
        k > 0 ==> s[k - 1] == c,
    ensures
        last_index(s, c) == if k > 0 {
            Some(k - 1)
        } else {
            None
        },
    decreases s.len() - k,
{
    if s.len() > k {
        let rest = s.drop_last();
        assert forall|i: int| k <= i < rest.len() implies #[trigger] rest[i] != c by {
            assert(rest[i] == s[i]);
        }
        if k > 0 {
            assert(rest[k - 1] == s[k - 1]);
        }
        lemma_last_index(rest, c, k);
    }
}

/// The characters `v[..end]` cut as [`truncated`] says.
fn truncate_chars(v: &Vec<char>, end: usize, max_len: usize) -> (r: String)
    requires
        end <= v.len(),
    ensures
        r@ == truncated(v@.take(end as int), max_len as nat),
{
    let ghost s = v@.take(end as int);
    if !exceeds_bytes(v, end, max_len) {
        assert(v@.subrange(0, end as int) =~= s);
        return text_of_range(v, 0, end);
    }
    let n: usize = if max_len <= end {
        max_len
    } else {
        end
    };
    let ghost cut = s.take(n as int);
    assert(cut =~= v@.take(n as int));
    let mut k: usize = n;
    while k > 0 && v[k - 1] != '-'
        invariant
            k <= n <= end <= v.len(),
            cut == v@.take(n as int),
            forall|i: int| k <= i < n ==> #[trigger] cut[i] != '-',
        decreases k,
    {
        k -= 1;
    }
    proof {
        lemma_last_index(cut, '-', k as int);
    }
    if k > 0 {
        let pos: usize = k - 1;
        assert(cut.take(pos as int) =~= v@.take(pos as int));
        if exceeds_bytes(v, pos, max_len / 2) {
            assert(v@.subrange(0, pos as int) =~= cut.take(pos as int));
            return text_of_range(v, 0, pos);
        }
    }
    let mut j: usize = n;
    while j > 0 && v[j - 1] == '-'
        invariant
            j <= n <= end <= v.len(),
            cut == v@.take(n as int),
            forall|i: int| j <= i < n ==> dash()(#[trigger] cut[i]),
        decreases j,
    {
        j -= 1;
    }
    proof {
        lemma_trim_end(cut, dash(), j as int);
        assert(v@.subrange(0, j as int) =~= cut.take(j as int));
    }
    text_of_range(v, 0, j)
}

/// Truncates a string at a word boundary.
pub fn truncate_at_boundary(s: &str, max_len: usize) -> (r: String)
    ensures
        r@ == truncated(s@, max_len as nat),
{
    let v = chars_of(s);
    assert(v@.take(v@.len() as int) =~= v@);
    truncate_chars(&v, v.len(), max_len)
}

/// The title part of a file name, made of a title from which the
/// characters that no file name may hold are already gone: separators are
/// collapsed, dashes and white space at both ends are cut, and what is
/// longer than [`MAX_TITLE_LENGTH`] bytes is truncated.
pub open spec fn tidy_title(sanitized: Seq<char>) -> Seq<char> {
    truncated(trim(collapsed(sanitized), title_edge()), MAX_TITLE_LENGTH as nat)
}

/// Builds [`tidy_title`].
pub fn tidy(sanitized: &str) -> (r: String)
    ensures
        r@ == tidy_title(sanitized@),
{
    let text = collapse_separators(sanitized);
    let v = chars_of(text.as_str());
    let mut i: usize = 0;
    while i < v.len() && (v[i] == '-' || is_whitespace(v[i]))
        invariant
            i <= v.len(),
            forall|k: int| 0 <= k < i ==> title_edge()(#[trigger] v@[k]),
        decreases v.len() - i,
    {
        i += 1;
    }
    let mut j: usize = v.len();
    while j > i && (v[j - 1] == '-' || is_whitespace(v[j - 1]))
        invariant
            i <= j <= v.len(),
            forall|k: int| j <= k < v.len() ==> title_edge()(#[trigger] v@[k]),
        decreases j,
    {
        j -= 1;
    }
    proof {
        lemma_trim_start(v@, title_edge(), i as int);
        let rest = v@.skip(i as int);
        assert forall|k: int| j - i <= k < rest.len() implies title_edge()(#[trigger] rest[k]) by {
            assert(rest[k] == v@[i + k]);
        }
        if j > i {
            assert(rest[j - i - 1] == v@[j - 1]);
        } else {
            assert(i < v.len() ==> !title_edge()(v@[i as int]));
        }
        lemma_trim_end(rest, title_edge(), j - i);
        assert(rest.take(j - i) =~= v@.subrange(i as int, j as int));
    }
    let trimmed = text_of_range(&v, i, j);
    truncate_at_boundary(trimmed.as_str(), MAX_TITLE_LENGTH)
}

/// Whether `c` is one of the characters that `sanitize_filename` takes out
/// of every name: the characters that some file system reserves, and the
/// control characters.
pub open spec fn is_unsafe(c: char) -> bool {
    let u = c as u32;
    c == '/' || c == '?' || c == '<' || c == '>' || c == '\\' || c == ':' || c == '*' || c == '|'
        || c == '"' || u <= 0x1f || (0x80 <= u <= 0x9f)
}

/// The test for the characters that a file name may hold.
pub open spec fn safe() -> spec_fn(char) -> bool {
    |c: char| !is_unsafe(c)
}

/// `name` without the characters that are taken out of every name.
pub open spec fn stripped(name: Seq<char>) -> Seq<char> {
    name.filter(safe())
}

/// The length of the device name of Windows that `s` begins with, if it
/// begins with one: `con`, `prn`, `aux`, `nul`, or `com` or `lpt` and a
/// digit, in any case.
pub open spec fn device_stem(s: Seq<char>) -> Option<int> {
    let lower = ascii_lowered(s);
    if lower.len() >= 3 && (lower.take(3) == "con"@ || lower.take(3) == "prn"@ || lower.take(3)
        == "aux"@ || lower.take(3) == "nul"@) {
        Some(3)
    } else if lower.len() >= 4 && (lower.take(3) == "com"@ || lower.take(3) == "lpt"@) && '0'
        <= lower[3] <= '9' {
        Some(4)
    } else {
        None
    }
}

/// Whether `s` is a name that Windows reserves for a device: a device
/// name alone, or one followed by a dot and anything.
pub open spec fn is_device_name(s: Seq<char>) -> bool {
    match device_stem(s) {
        Some(k) => s.len() == k || s[k] == '.',
        None => false,
    }
}

/// Whether a name without unsafe characters is kept whole on every
/// platform: it takes at most 255 bytes, it does not end in a dot or a
/// space (so it is not made of dots alone), and it is no device name of
/// Windows.
pub open spec fn is_kept_whole(s: Seq<char>) -> bool {
    &&& utf8_len(s) <= 255
    &&& s.len() > 0 ==> s.last() != '.' && s.last() != ' '
    &&& !is_device_name(s)
}

/// What holds of a name that `sanitize_filename` has made of `name`,
/// whatever the platform: it is the start of `name` without its unsafe
/// characters, it takes at most 255 bytes, and it is all of that text
/// where that text is kept whole.
pub open spec fn is_sanitized_from(name: Seq<char>, clean: Seq<char>) -> bool {
    &&& clean.is_prefix_of(stripped(name))
    &&& utf8_len(clean) <= 255
    &&& is_kept_whole(stripped(name)) ==> clean == stripped(name)
}

/// `sanitize_filename::sanitize`. It removes from `name` the characters
/// that a file system may reserve and the control characters, empties a
/// name made of dots alone, and cuts what is left to 255 bytes at the last
/// character that fits; on Windows it also empties a reserved device name
/// and removes trailing dots and spaces before it cuts. So the result
/// differs between platforms, and the contract holds what is true on each
/// of them: every step leaves a start of the text without its unsafe
/// characters, and no step applies to a text that is kept whole.
#[verifier::external_body]
fn sanitize_name(name: &str) -> (clean: String)
    ensures
        is_sanitized_from(name@, clean@),
{
    sanitize_filename::sanitize(name)
}

/// Sanitises a title for use in a file name: the characters that no file
/// name may hold are removed, and what is left is tidied as
/// [`tidy_title`] says.
pub fn sanitize_title(title: &str) -> (r: String)
    ensures
        exists|clean: Seq<char>| is_sanitized_from(title@, clean) && r@ == tidy_title(clean),
        is_kept_whole(stripped(title@)) ==> r@ == tidy_title(stripped(title@)),
{
    let clean = sanitize_name(title);
    tidy(clean.as_str())
}

/// The first part of a file name: the publication day, or `undated` where
/// there is none.
pub open spec fn date_prefix(day: Option<Seq<char>>) -> Seq<char> {
    match day {
        Some(d) => d,
        None => "undated"@,
    }
}

/// The day of an optional date.
pub open spec fn day_of(date: Option<PubDate>) -> Option<Seq<char>> {
    match date {
        Some(d) => d.day(),
        None => None,
    }
}

/// A file name's stem: the date prefix, a dash and the title part.
pub open spec fn stem_text(day: Option<Seq<char>>, title: Seq<char>) -> Seq<char> {
    date_prefix(day) + "-"@ + title
}

/// Builds the stem of a file name of the day, if there is one, and a title
/// part.
pub fn stem_from(day: &Option<String>, title: &str) -> (stem: String)
    ensures
        stem@ == stem_text(text_view(*day), title@),
{
    let mut stem = match day {
        Some(d) => d.clone(),
        None => String::from_str("undated"),
    };
    push_text(&mut stem, "-");
    push_text(&mut stem, title);
    stem
}

/// Generates a file name stem (without extension) for an episode:
/// `YYYY-MM-DD-sanitized-title`, or `undated-sanitized-title`.
pub fn generate_filename_stem(episode: &Episode) -> (stem: String)
    ensures
        exists|clean: Seq<char>|
            is_sanitized_from(episode.title@, clean) && stem@ == stem_text(
                day_of(episode.pub_date),
                tidy_title(clean),
            ),
        is_kept_whole(stripped(episode.title@)) ==> stem@ == stem_text(
            day_of(episode.pub_date),
            tidy_title(stripped(episode.title@)),
        ),
{
    let day = match &episode.pub_date {
        Some(date) => date.to_day(),
        None => None,
    };
    let title = sanitize_title(episode.title.as_str());
    stem_from(&day, title.as_str())
}

/// The audio extension that `ext` names, if it names one: `ext` in lower
/// case, where that is one of the extensions known.
pub open spec fn audio_extension(ext: Seq<char>) -> Option<Seq<char>> {
    let lower = ascii_lowered(ext);
    if lower == "mp3"@ || lower == "m4a"@ || lower == "mp4"@ || lower == "aac"@ || lower == "ogg"@
        || lower == "opus"@ || lower == "wav"@ || lower == "flac"@ {
        Some(lower)
    } else {
        None
    }
}

/// The known extension that the characters `ext` name, if any.
fn known_extension(ext: &Vec<char>) -> (r: Option<&'static str>)
    ensures
        (match r {
            Some(e) => Some(e@),
            None => None,
        }) == audio_extension(ext@),
{
    if reads_as(ext, "mp3") {
        Some("mp3")
    } else if reads_as(ext, "m4a") {
        Some("m4a")
    } else if reads_as(ext, "mp4") {
        Some("mp4")
    } else if reads_as(ext, "aac") {
        Some("aac")
    } else if reads_as(ext, "ogg") {
        Some("ogg")
    } else if reads_as(ext, "opus") {
        Some("opus")
    } else if reads_as(ext, "wav") {
        Some("wav")
    } else if reads_as(ext, "flac") {
        Some("flac")
    } else {
        None
    }
}

/// Checks whether a string is a valid audio file extension, whatever its
/// case.
pub fn is_valid_audio_extension(ext: &str) -> (r: bool)
    ensures
        r == (audio_extension(ext@) is Some),
{
    let v = chars_of(ext);
    known_extension(&v).is_some()
}

/// The extension that goes with a MIME type, whatever its case.
pub open spec fn mime_extension(mime: Seq<char>) -> Option<Seq<char>> {
    let lower = ascii_lowered(mime);
    if lower == "audio/mpeg"@ || lower == "audio/mp3"@ {
        Some("mp3"@)
    } else if lower == "audio/mp4"@ || lower == "audio/m4a"@ || lower == "audio/x-m4a"@ {
        Some("m4a"@)
    } else if lower == "audio/aac"@ {
        Some("aac"@)
    } else if lower == "audio/ogg"@ {
        Some("ogg"@)
    } else if lower == "audio/opus"@ {
        Some("opus"@)
    } else if lower == "audio/wav"@ || lower == "audio/x-wav"@ {
        Some("wav"@)
    } else if lower == "audio/flac"@ || lower == "audio/x-flac"@ {
        Some("flac"@)
    } else {
        None
    }
}

/// Maps MIME types to file extensions.
pub fn mime_to_extension(mime: &str) -> (r: Option<&'static str>)
    ensures
        (match r {
            Some(e) => Some(e@),
            None => None,
        }) == mime_extension(mime@),
{
    let v = chars_of(mime);
    if reads_as(&v, "audio/mpeg") || reads_as(&v, "audio/mp3") {
        Some("mp3")
    } else if reads_as(&v, "audio/mp4") || reads_as(&v, "audio/m4a") || reads_as(
        &v,
        "audio/x-m4a",
    ) {
        Some("m4a")
    } else if reads_as(&v, "audio/aac") {
        Some("aac")
    } else if reads_as(&v, "audio/ogg") {
        Some("ogg")
    } else if reads_as(&v, "audio/opus") {
        Some("opus")
    } else if reads_as(&v, "audio/wav") || reads_as(&v, "audio/x-wav") {
        Some("wav")
    } else if reads_as(&v, "audio/flac") || reads_as(&v, "audio/x-flac") {
        Some("flac")
    } else {
        None
    }
}

/// The segments of the path of the URL `url`, in order: what stands
/// between the slashes of the path, as `Url::path_segments` gives it.
/// `None` where `url` is no URL, or one without a path of segments.
pub uninterp spec fn url_path_segments(url: Seq<char>) -> Option<Seq<Seq<char>>>;

/// The texts of an optional list of strings.
pub open spec fn texts_view(list: Option<Vec<String>>) -> Option<Seq<Seq<char>>> {
    match list {
        Some(v) => Some(v@.map_values(|s: String| s@)),
        None => None,
    }
}

/// `Url::path_segments` of `url`, on the URL that `Url::parse` reads from
/// the text. The result is [`url_path_segments`] of the text.
#[verifier::external_body]
fn path_segments_of(url: &str) -> (segments: Option<Vec<String>>)
    ensures
        texts_view(segments) == url_path_segments(url@),
{
    let parsed = url::Url::parse(url).ok()?;
    let segments = parsed.path_segments()?;
    Some(segments.map(String::from).collect())
}

/// What follows the last dot of `name`; all of `name` if it holds no dot.
pub open spec fn after_last_dot(name: Seq<char>) -> Seq<char> {
    match last_index(name, '.') {
        Some(k) => name.skip(k + 1),
        None => name,
    }
}

/// The extension that the path of a URL gives: what follows the last dot
/// of the last segment, if that names a known audio extension.
pub open spec fn path_extension(segments: Option<Seq<Seq<char>>>) -> Option<Seq<char>> {
    match segments {
        Some(list) if list.len() > 0 => audio_extension(after_last_dot(list.last())),
        _ => None,
    }
}

/// The extension of an audio file, by the path of its URL and its MIME
/// type: the extension that the path gives; failing that, the one that goes
/// with the MIME type; failing that, `mp3`.
pub open spec fn extension_text(
    segments: Option<Seq<Seq<char>>>,
    mime_type: Option<Seq<char>>,
) -> Seq<char> {
    match path_extension(segments) {
        Some(ext) => ext,
        None => match mime_type {
            Some(mime) => match mime_extension(mime) {
                Some(ext) => ext,
                None => "mp3"@,
            },
            None => "mp3"@,
        },
    }
}

/// The known extension that follows the last dot of `name`, if any.
fn extension_of_name(name: &str) -> (r: Option<&'static str>)
    ensures
        (match r {
            Some(e) => Some(e@),
            None => None,
        }) == audio_extension(after_last_dot(name@)),
{
    let v = chars_of(name);
    let mut k: usize = v.len();
    while k > 0 && v[k - 1] != '.'
        invariant
            k <= v.len(),
            forall|i: int| k <= i < v.len() ==> #[trigger] v@[i] != '.',
        decreases k,
    {
        k -= 1;
    }
    proof {
        lemma_last_index(v@, '.', k as int);
        assert(v@.subrange(k as int, v@.len() as int) =~= v@.skip(k as int));
        assert(v@.skip(0) =~= v@);
    }
    let tail = text_of_range(&v, k, v.len());
    let tail_chars = chars_of(tail.as_str());
    known_extension(&tail_chars)
}

/// Decides [`extension_text`], given the segments of the URL's path.
pub fn extension_from(segments: &Option<Vec<String>>, mime_type: &Option<String>) -> (ext: String)
    ensures
        ext@ == extension_text(texts_view(*segments), text_view(*mime_type)),
{
    let from_path: Option<&'static str> = match segments {
        Some(list) => {
            if list.len() > 0 {
                assert(texts_view(*segments)->0.last() == list@[list@.len() - 1]@);
                extension_of_name(list[list.len() - 1].as_str())
            } else {
                None
            }
        },
        None => None,
    };
    assert((match from_path {
        Some(e) => Some(e@),
        None => None,
    }) == path_extension(texts_view(*segments)));
    if let Some(known) = from_path {
        return String::from_str(known);
    }
    if let Some(mime) = mime_type {
        if let Some(ext) = mime_to_extension(mime.as_str()) {
            return String::from_str(ext);
        }
    }
    String::from_str("mp3")
}

/// Gets the audio file extension from an episode's enclosure: from the
/// path of its URL or from its MIME type; `mp3` if neither tells.
pub fn get_audio_extension(episode: &Episode) -> (ext: String)
    ensures
        ext@ == extension_text(
            url_path_segments(episode.enclosure.url@),
            text_view(episode.enclosure.mime_type),
        ),
{
    let segments = path_segments_of(episode.enclosure.url.as_str());
    extension_from(&segments, &episode.enclosure.mime_type)
}

/// Generates a complete file name for an episode: the stem, a dot and the
/// audio extension.
pub fn generate_filename(episode: &Episode) -> (name: String)
    ensures
        exists|clean: Seq<char>|
            is_sanitized_from(episode.title@, clean) && name@ == stem_text(
                day_of(episode.pub_date),
                tidy_title(clean),
            ) + "."@ + extension_text(
                url_path_segments(episode.enclosure.url@),
                text_view(episode.enclosure.mime_type),
            ),
        is_kept_whole(stripped(episode.title@)) ==> name@ == stem_text(
            day_of(episode.pub_date),
            tidy_title(stripped(episode.title@)),
        ) + "."@ + extension_text(
            url_path_segments(episode.enclosure.url@),
            text_view(episode.enclosure.mime_type),
        ),
{
    let mut name = generate_filename_stem(episode);
    let ext = get_audio_extension(episode);
    push_text(&mut name, ".");
    push_text(&mut name, ext.as_str());
    name
}

/// The stem of a file name: what stands before its last dot. A name
/// without a dot, and one whose only dot is its first character, is its
/// own stem.
pub open spec fn file_stem(name: Seq<char>) -> Seq<char> {
    match last_index(name, '.') {
        Some(k) if k > 0 => name.take(k),
        _ => name,
    }
}

/// The name of the sidecar that goes with an audio file: the stem of the
/// audio file's name and `.json`.
pub open spec fn metadata_filename_text(audio_filename: Seq<char>) -> Seq<char> {
    file_stem(audio_filename) + ".json"@
}

/// Generates the name of the sidecar that goes with an audio file.
pub fn metadata_filename(audio_filename: &str) -> (name: String)
    ensures
        name@ == metadata_filename_text(audio_filename@),
{
    let v = chars_of(audio_filename);
    let mut k: usize = v.len();
    while k > 0 && v[k - 1] != '.'
        invariant
            k <= v.len(),
            forall|i: int| k <= i < v.len() ==> #[trigger] v@[i] != '.',
        decreases k,
    {
        k -= 1;
    }
    proof {
        lemma_last_index(v@, '.', k as int);
    }
    let end: usize = if k > 1 {
        k - 1
    } else {
        v.len()
    };
    assert(v@.subrange(0, end as int) =~= file_stem(v@));
    let mut name = text_of_range(&v, 0, end);
    push_text(&mut name, ".json");
    name
}

/// Whether `s` holds no dot.
pub open spec fn has_no_dot(s: Seq<char>) -> bool {
    forall|i: int| 0 <= i < s.len() ==> #[trigger] s[i] != '.'
}

/// No audio extension holds a dot.
pub proof fn lemma_extension_has_no_dot(
    segments: Option<Seq<Seq<char>>>,
    mime_type: Option<Seq<char>>,
)
    ensures
        has_no_dot(extension_text(segments, mime_type)),
{
    reveal_strlit("mp3");
    reveal_strlit("m4a");
    reveal_strlit("mp4");
    reveal_strlit("aac");
    reveal_strlit("ogg");
    reveal_strlit("opus");
    reveal_strlit("wav");
    reveal_strlit("flac");
}

/// The sidecar shares the stem of its payload: with the stem `stem` and an
/// extension without a dot, the audio file is `stem.ext` and its sidecar
/// `stem.json`.
pub proof fn lemma_sidecar_shares_stem(stem: Seq<char>, ext: Seq<char>)
    requires
        stem.len() > 0,
        has_no_dot(ext),
    ensures
        metadata_filename_text(stem + "."@ + ext) == stem + ".json"@,
{
    reveal_strlit(".");
    let name = stem + "."@ + ext;
    let k = stem.len() as int + 1;
    assert(name[k - 1] == '.');
    assert forall|i: int| k <= i < name.len() implies #[trigger] name[i] != '.' by {
        assert(name[i] == ext[i - k]);
    }
    lemma_last_index(name, '.', k);
    assert(name.take(k - 1) =~= stem);
}

/// The names of an episode's two files differ in their extension alone:
/// the sidecar of the file that [`generate_filename`] names is the same
/// stem with `.json`.
pub proof fn lemma_sidecar_of_generated_name(
    day: Option<Seq<char>>,
    title: Seq<char>,
    segments: Option<Seq<Seq<char>>>,
    mime_type: Option<Seq<char>>,
)
    ensures
        metadata_filename_text(stem_text(day, title) + "."@ + extension_text(segments, mime_type))
            == stem_text(day, title) + ".json"@,
{
    reveal_strlit("-");
    lemma_extension_has_no_dot(segments, mime_type);
    lemma_sidecar_shares_stem(stem_text(day, title), extension_text(segments, mime_type));
}

/// Whether every character of `s` passes `test`.
pub open spec fn all_chars(s: Seq<char>, test: spec_fn(char) -> bool) -> bool {
    forall|i: int| 0 <= i < s.len() ==> test(#[trigger] s[i])
}

/// Trimming the start leaves a part of the text.
proof fn lemma_trim_start_keeps(
    s: Seq<char>,
    edge: spec_fn(char) -> bool,
    test: spec_fn(char) -> bool,
)
    requires
        all_chars(s, test),
    ensures
        all_chars(trim_start(s, edge), test),
    decreases s.len(),
{
    if s.len() > 0 {
        let tail = s.drop_first();
        assert forall|i: int| 0 <= i < tail.len() implies test(#[trigger] tail[i]) by {
            assert(tail[i] == s[i + 1]);
        }
        lemma_trim_start_keeps(tail, edge, test);
    }
}

/// Trimming the end leaves a part of the text.
proof fn lemma_trim_end_keeps(
    s: Seq<char>,
    edge: spec_fn(char) -> bool,
    test: spec_fn(char) -> bool,
)
    requires
        all_chars(s, test),
    ensures
        all_chars(trim_end(s, edge), test),
    decreases s.len(),
{
    if s.len() > 0 {
        let init = s.drop_last();
        assert forall|i: int| 0 <= i < init.len() implies test(#[trigger] init[i]) by {
            assert(init[i] == s[i]);
        }
        lemma_trim_end_keeps(init, edge, test);
    }
}

/// A truncated text is the start of the text, and has at most `max_len`
/// characters.
pub proof fn lemma_truncated_is_prefix(s: Seq<char>, max_len: nat)
    ensures
        truncated(s, max_len).is_prefix_of(s),
        truncated(s, max_len).len() <= max_len,
{
    lemma_utf8_len_bounds(s);
    if utf8_len(s) > max_len {
        let n = if max_len <= s.len() {
            max_len as int
        } else {
            s.len() as int
        };
        let cut = s.take(n);
        lemma_trim_end_is_prefix(cut, dash());
        lemma_last_index_in_range(cut, '-');
        let out = truncated(s, max_len);
        assert(out.is_prefix_of(cut));
        assert(out =~= s.subrange(0, out.len() as int));
    } else {
        assert(s =~= s.subrange(0, s.len() as int));
    }
}

/// A text takes at least one byte for each of its characters.
proof fn lemma_utf8_len_bounds(s: Seq<char>)
    ensures
        s.len() <= utf8_len(s),
    decreases s.len(),
{
    if s.len() > 0 {
        lemma_utf8_len_bounds(s.drop_last());
    }
}

/// What is left of a text whose end was trimmed is its start.
proof fn lemma_trim_end_is_prefix(s: Seq<char>, edge: spec_fn(char) -> bool)
    ensures
        trim_end(s, edge).is_prefix_of(s),
    decreases s.len(),
{
    if s.len() > 0 && edge(s.last()) {
        lemma_trim_end_is_prefix(s.drop_last(), edge);
        let t = trim_end(s, edge);
        assert(t =~= s.subrange(0, t.len() as int));
    } else {
        assert(s =~= s.subrange(0, s.len() as int));
    }
}

/// The last index of a character lies within the text.
proof fn lemma_last_index_in_range(s: Seq<char>, c: char)
    ensures
        last_index(s, c) matches Some(k) ==> 0 <= k < s.len() && s[k] == c,
    decreases s.len(),
{
    if s.len() > 0 && s.last() != c {
        lemma_last_index_in_range(s.drop_last(), c);
    }
}

/// Collapsing separators brings in nothing but spaces, dashes and
/// underscores.
proof fn lemma_collapsed_keeps_safe(s: Seq<char>)
    requires
        all_chars(s, safe()),
    ensures
        all_chars(collapsed(s), safe()),
    decreases s.len(),
{
    if s.len() > 0 {
        let init = s.drop_last();
        assert forall|i: int| 0 <= i < init.len() implies safe()(#[trigger] init[i]) by {
            assert(init[i] == s[i]);
        }
        lemma_collapsed_keeps_safe(init);
        assert(safe()(s.last()));
    }
}

/// The title part of a file name holds none of the characters that a file
/// system may reserve, no path separator among them, and no control
/// character; and it has at most [`MAX_TITLE_LENGTH`] characters.
pub proof fn lemma_tidy_title_is_safe(title: Seq<char>, clean: Seq<char>)
    requires
        is_sanitized_from(title, clean),
    ensures
        all_chars(tidy_title(clean), safe()),
        tidy_title(clean).len() <= MAX_TITLE_LENGTH,
{
    assert forall|i: int| 0 <= i < clean.len() implies safe()(#[trigger] clean[i]) by {
        assert(clean[i] == stripped(title)[i]);
        title.lemma_filter_pred(safe(), i);
    }
    lemma_collapsed_keeps_safe(clean);
    let trimmed = trim(collapsed(clean), title_edge());
    lemma_trim_start_keeps(collapsed(clean), title_edge(), safe());
    lemma_trim_end_keeps(trim_start(collapsed(clean), title_edge()), title_edge(), safe());
    lemma_truncated_is_prefix(trimmed, MAX_TITLE_LENGTH as nat);
    let out = tidy_title(clean);
    assert forall|i: int| 0 <= i < out.len() implies safe()(#[trigger] out[i]) by {
        assert(out[i] == trimmed.subrange(0, out.len() as int)[i]);
    }
}

} // verus!
