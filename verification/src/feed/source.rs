//! Telling a remote feed from a local one.

use crate::text::starts_with;
use vstd::prelude::*;

verus! {

/// Whether a feed source names a remote feed: it begins with `http://` or
/// `https://`. Any other source is taken as the path of a local file.
pub open spec fn is_url_text(source: Seq<char>) -> bool {
    "http://"@.is_prefix_of(source) || "https://"@.is_prefix_of(source)
}

/// Determines whether a feed source is a URL or a file path.
pub fn is_url(source: &str) -> (r: bool)
    ensures
        r == is_url_text(source@),
{
    starts_with(source, "http://") || starts_with(source, "https://")
}

} // verus!
