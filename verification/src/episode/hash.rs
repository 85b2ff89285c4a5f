//! The content hash of a payload.
//!
//! The hash is the SHA-256 digest of the bytes that were written, taken
//! while they pass: the digest runs over each chunk as it arrives.

use vstd::prelude::*;

verus! {

/// A running SHA-256 digest.
///
/// The hasher of `sha2` is kept out of sight: all that is said of it is
/// which bytes it has taken in, by [`absorbed`].
#[verifier::external_body]
pub struct ContentHasher {
    inner: sha2::Sha256,
}

/// The bytes that a hasher has taken in since it was made or last emptied,
/// in the order in which they came.
pub uninterp spec fn absorbed(hasher: ContentHasher) -> Seq<u8>;

/// The SHA-256 digest of `bytes`, written as lower-case hexadecimal digits.
pub uninterp spec fn sha256_hex(bytes: Seq<u8>) -> Seq<char>;

/// `Digest::new` of `sha2::Sha256`: a hasher that has taken in nothing.
#[verifier::external_body]
pub(crate) fn hasher_new() -> (hasher: ContentHasher)
    ensures
        absorbed(hasher) == Seq::<u8>::empty(),
{
    ContentHasher { inner: sha2::Digest::new() }
}

/// `Digest::update` of `sha2::Sha256`: the hasher takes in `data` after
/// what it has taken in before.
#[verifier::external_body]
pub(crate) fn hasher_update(hasher: &mut ContentHasher, data: &[u8])
    ensures
        absorbed(*final(hasher)) == absorbed(*old(hasher)) + data@,
{
    sha2::Digest::update(&mut hasher.inner, data)
}

/// `Digest::finalize_reset` of `sha2::Sha256`, formatted with `{:x}`: the
/// digest of what the hasher has taken in, as lower-case hexadecimal digits,
/// two for each of its 32 bytes; the hasher is empty afterwards.
#[verifier::external_body]
pub(crate) fn hasher_finish(hasher: &mut ContentHasher) -> (hex: String)
    ensures
        hex@ == sha256_hex(absorbed(*old(hasher))),
        hex@.len() == 64,
        absorbed(*final(hasher)) == Seq::<u8>::empty(),
{
    format!("{:x}", sha2::Digest::finalize_reset(&mut hasher.inner))
}

/// The length of a content hash: the seven characters of `sha256:` and the
/// 64 digits of the digest.
pub const CONTENT_HASH_LENGTH: usize = 71;

/// The content hash of a payload: `sha256:` and the digest of its bytes.
pub open spec fn content_hash(bytes: Seq<u8>) -> Seq<char> {
    "sha256:"@ + sha256_hex(bytes)
}

/// The bytes of a response that came in the chunks `chunks`.
pub open spec fn payload(chunks: Seq<Seq<u8>>) -> Seq<u8>
    decreases chunks.len(),
{
    if chunks.len() == 0 {
        Seq::empty()
    } else {
        payload(chunks.drop_last()) + chunks.last()
    }
}

/// The content hash is determined by the bytes alone. Two downloads of the
/// same byte sequence yield the same hash, however the bytes were cut into
/// chunks.
pub proof fn lemma_same_bytes_same_hash(first: Seq<Seq<u8>>, second: Seq<Seq<u8>>)
    requires
        payload(first) == payload(second),
    ensures
        content_hash(payload(first)) == content_hash(payload(second)),
{
}

} // verus!
