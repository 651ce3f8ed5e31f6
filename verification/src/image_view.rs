//! Image classification for the Changes Diff view: which bytes preview as an image, which
//! run through the text diff, and which show the binary notice. Decoding is the `image`
//! crate's; fitting and painting the preview belong to the terminal front end.

use vstd::prelude::*;

verus! {

/// Byte budget for a single image side. Larger blobs degrade to `TooLarge` without decode.
pub const MAX_IMAGE_BYTES: usize = 8_000_000;

/// How raw file bytes should be shown in the Diff view.
#[derive(Clone, Copy, PartialEq, Eq, Debug, Structural)]
pub enum ContentKind {
    /// A valid image decode: paint the visual preview.
    Image,
    /// No NUL and not an image: the text diff pipeline.
    Text,
    /// NUL-bearing non-image (or undecodable binary): the binary notice.
    Binary,
    /// Over the image byte budget.
    TooLarge,
}

/// Whether the `image` crate decodes `bytes` as an image of a format it guesses from their
/// first bytes.
pub uninterp spec fn image_decodes(bytes: Seq<u8>) -> bool;

/// `image::ImageReader` over `bytes` with a content-guessed format, then `decode`: whether it
/// yields an image. The contract names the outcome only; which byte strings decode is the
/// crate's.
#[verifier::external_body]
fn decodes(bytes: &[u8]) -> (b: bool)
    ensures
        b == image_decodes(bytes@),
{
    match image::ImageReader::new(std::io::Cursor::new(bytes)).with_guessed_format() {
        Ok(reader) => reader.decode().is_ok(),
        Err(_) => false,
    }
}

/// The classification: empty is text, over budget is too large, a decodable image is an
/// image, else a NUL byte makes it binary and its absence text.
pub open spec fn classify_spec(bytes: Seq<u8>) -> ContentKind {
    if bytes.len() == 0 {
        ContentKind::Text
    } else if bytes.len() > MAX_IMAGE_BYTES {
        ContentKind::TooLarge
    } else if image_decodes(bytes) {
        ContentKind::Image
    } else if bytes.contains(0u8) {
        ContentKind::Binary
    } else {
        ContentKind::Text
    }
}

/// Classify `bytes` for the Changes Diff view: image decode wins over the NUL binary rule.
pub fn classify(bytes: &[u8]) -> (k: ContentKind)
    ensures
        k == classify_spec(bytes@),
{
    if bytes.len() == 0 {
        return ContentKind::Text;
    }
    if bytes.len() > MAX_IMAGE_BYTES {
        return ContentKind::TooLarge;
    }
    if decodes(bytes) {
        return ContentKind::Image;
    }
    let mut i: usize = 0;
    while i < bytes.len()
        invariant
            i <= bytes@.len(),
            0 < bytes@.len() <= MAX_IMAGE_BYTES,
            !image_decodes(bytes@),
            forall|k: int| 0 <= k < i ==> bytes@[k] != 0u8,
        decreases bytes@.len() - i,
    {
        if bytes[i] == 0 {
            proof {
                assert(bytes@.contains(bytes@[i as int]));
            }
            return ContentKind::Binary;
        }
        i = i + 1;
    }
    ContentKind::Text
}

/// The standard library's default hash of a byte slice.
pub uninterp spec fn default_hash(bytes: Seq<u8>) -> u64;

/// `BuildHasherDefault::<DefaultHasher>::hash_one`: hashing `bytes` with a fresh
/// `DefaultHasher` (fixed keys, not seeded per process).
#[verifier::external_body]
fn hash_with_default(bytes: &[u8]) -> (h: u64)
    ensures
        h == default_hash(bytes@),
{
    std::hash::BuildHasher::hash_one(
        &std::hash::BuildHasherDefault::<std::collections::hash_map::DefaultHasher>::default(),
        bytes,
    )
}

/// Content hash for cache invalidation of an image pane (path-independent).
pub fn bytes_hash(bytes: &[u8]) -> (h: u64)
    ensures
        h == default_hash(bytes@),
{
    hash_with_default(bytes)
}

/// Prefer the worktree (new) side when present; otherwise the old side (a deletion).
pub fn display_side<'a>(old: &'a [u8], new: &'a [u8]) -> (side: &'a [u8])
    ensures
        side@ == if new@.len() == 0 {
            old@
        } else {
            new@
        },
{
    if new.len() == 0 {
        old
    } else {
        new
    }
}

} // verus!
