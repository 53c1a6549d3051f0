//! Comparing a local file with the object stored under its key: first by
//! size, and by content digest only where the sizes agree.

use vstd::prelude::*;
use crate::text::{
    chars_of, contains_char, eq_ignore_ascii_case, same_ignoring_ascii_case, string_of,
    trim_char, trim_char_of,
};

verus! {

/// How a local file stands to the object under its key.
#[derive(Debug, Clone, Copy, PartialEq, Eq, Structural)]
pub enum FileComparison {
    /// The store holds no object under the key.
    NotFound,
    /// The object counts as the same as the file.
    Identical,
    /// The object differs from the file.
    Different,
}

/// What the store reports of an object.
#[derive(Debug, Clone)]
pub struct RemoteObject {
    /// Size of the object in bytes, where the store gave one.
    pub content_length: Option<i64>,
    /// Fingerprint of the content, where the store gave one.
    pub e_tag: Option<String>,
}

/// How the probe for an object's metadata ended.
#[derive(Debug, Clone)]
pub enum HeadOutcome {
    Found(RemoteObject),
    /// The store answered that there is no such object.
    Absent,
    /// The probe failed for another reason.
    Failed(String),
}

/// Why a comparison could not be made.
#[derive(Debug, Clone)]
pub enum CompareError {
    /// The local file could not be read.
    Io(String),
    /// The store could not be asked.
    Transport(String),
}

/// Where a comparison stands once the metadata is known.
#[derive(Debug, Clone)]
pub enum CompareStep {
    Decided(FileComparison),
    /// The sizes agree and the object has a plain fingerprint: the file's
    /// digest decides, held against `expected`.
    NeedsDigest { expected: String },
}

/// The size that the store reported; none counts as zero.
pub open spec fn remote_size(content_length: Option<i64>) -> int {
    match content_length {
        Some(length) => length as int,
        None => 0,
    }
}

/// A fingerprint without the quotation marks around it.
pub open spec fn clean_tag(e_tag: Seq<char>) -> Seq<char> {
    trim_char(e_tag, '"')
}

/// A fingerprint, quotation marks removed, is that of an object assembled
/// from parts: such a one holds a hyphen, before the number of parts. It is
/// no digest of the content.
pub open spec fn is_composite(clean: Seq<char>) -> bool {
    clean.contains('-')
}

/// What the metadata decides, or `None` where the digest has to.
pub open spec fn metadata_verdict(
    local_size: u64,
    content_length: Option<i64>,
    e_tag: Option<Seq<char>>,
) -> Option<FileComparison> {
    if remote_size(content_length) != local_size {
        Some(FileComparison::Different)
    } else {
        match e_tag {
            None => Some(FileComparison::Identical),
            Some(tag) => if is_composite(clean_tag(tag)) {
                Some(FileComparison::Identical)
            } else {
                None
            },
        }
    }
}

/// What the digest decides: the file's digest and the fingerprint agree but
/// for the case of their letters, or they do not.
pub open spec fn digest_verdict(local_digest: Seq<char>, expected: Seq<char>) -> FileComparison {
    if eq_ignore_ascii_case(local_digest, expected) {
        FileComparison::Identical
    } else {
        FileComparison::Different
    }
}

/// The outcome of the whole comparison of a file of `local_size` bytes and
/// digest `local_digest` with an object of the given metadata.
pub open spec fn comparison(
    local_size: u64,
    local_digest: Seq<char>,
    content_length: Option<i64>,
    e_tag: Option<Seq<char>>,
) -> FileComparison {
    match metadata_verdict(local_size, content_length, e_tag) {
        Some(verdict) => verdict,
        None => digest_verdict(local_digest, clean_tag(e_tag->0)),
    }
}

/// A fingerprint as a text, where there is one.
pub open spec fn tag_text(e_tag: Option<String>) -> Option<Seq<char>> {
    match e_tag {
        Some(tag) => Some(tag@),
        None => None,
    }
}

/// Compares by metadata alone. Sizes that differ decide at once, so that no
/// file is read for its digest unless the sizes agree.
pub fn compare_metadata(local_size: u64, remote: &RemoteObject) -> (step: CompareStep)
    ensures
        match metadata_verdict(local_size, remote.content_length, tag_text(remote.e_tag)) {
            Some(verdict) => step == CompareStep::Decided(verdict),
            None => step matches CompareStep::NeedsDigest { expected } && expected@ == clean_tag(
                remote.e_tag->0@,
            ),
        },
{
    let same_size = match remote.content_length {
        Some(length) => length >= 0 && length as u64 == local_size,
        None => local_size == 0,
    };
    if !same_size {
        return CompareStep::Decided(FileComparison::Different);
    }
    match &remote.e_tag {
        None => CompareStep::Decided(FileComparison::Identical),
        Some(tag) => {
            let raw = chars_of(tag.as_str());
            let clean = trim_char_of(&raw, '"');
            if contains_char(&clean, '-') {
                CompareStep::Decided(FileComparison::Identical)
            } else {
                CompareStep::NeedsDigest { expected: string_of(&clean) }
            }
        },
    }
}

/// Takes up the answer to the metadata probe: an absent object is not found,
/// a failed probe is an error, and a found object is compared by
/// [`compare_metadata`].
pub fn compare_head(local_size: u64, head: HeadOutcome) -> (result: Result<CompareStep, CompareError>)
    ensures
        match head {
            HeadOutcome::Absent => result == Ok::<CompareStep, CompareError>(
                CompareStep::Decided(FileComparison::NotFound),
            ),
            HeadOutcome::Failed(reason) => result == Err::<CompareStep, CompareError>(
                CompareError::Transport(reason),
            ),
            HeadOutcome::Found(remote) => result matches Ok(step) && match metadata_verdict(
                local_size,
                remote.content_length,
                tag_text(remote.e_tag),
            ) {
                Some(verdict) => step == CompareStep::Decided(verdict),
                None => step matches CompareStep::NeedsDigest { expected } && expected@
                    == clean_tag(remote.e_tag->0@),
            },
        },
{
    match head {
        HeadOutcome::Absent => Ok(CompareStep::Decided(FileComparison::NotFound)),
        HeadOutcome::Failed(reason) => Err(CompareError::Transport(reason)),
        HeadOutcome::Found(remote) => Ok(compare_metadata(local_size, &remote)),
    }
}

/// Compares the file's digest with the fingerprint that [`compare_metadata`]
/// asked it to be held against.
pub fn compare_digest(local_digest: &str, expected: &str) -> (verdict: FileComparison)
    ensures
        verdict == digest_verdict(local_digest@, expected@),
{
    let ours = chars_of(local_digest);
    let theirs = chars_of(expected);
    if same_ignoring_ascii_case(&ours, &theirs) {
        FileComparison::Identical
    } else {
        FileComparison::Different
    }
}

/// For a file and an object of the same size, where the object's fingerprint
/// is a plain digest: they are identical if the digests agree, letter case
/// aside, and different if they do not.
pub proof fn lemma_same_size_digest_decides(
    local_size: u64,
    local_digest: Seq<char>,
    content_length: Option<i64>,
    e_tag: Seq<char>,
)
    requires
        remote_size(content_length) == local_size,
        !is_composite(clean_tag(e_tag)),
    ensures
        metadata_verdict(local_size, content_length, Some(e_tag)) is None,
        eq_ignore_ascii_case(local_digest, clean_tag(e_tag)) ==> comparison(
            local_size,
            local_digest,
            content_length,
            Some(e_tag),
        ) == FileComparison::Identical,
        !eq_ignore_ascii_case(local_digest, clean_tag(e_tag)) ==> comparison(
            local_size,
            local_digest,
            content_length,
            Some(e_tag),
        ) == FileComparison::Different,
{
}

/// For a file and an object of different sizes the metadata decides, and
/// decides that they differ: the digest is never asked for, and has no part
/// in the outcome.
pub proof fn lemma_size_mismatch_is_different(
    local_size: u64,
    local_digest: Seq<char>,
    content_length: Option<i64>,
    e_tag: Option<Seq<char>>,
)
    requires
        remote_size(content_length) != local_size,
    ensures
        metadata_verdict(local_size, content_length, e_tag) == Some(FileComparison::Different),
        comparison(local_size, local_digest, content_length, e_tag) == FileComparison::Different,
{
}

/// Sizes that agree do not by themselves make two files identical: where the
/// object has a plain fingerprint, the answer is left to the digest.
pub proof fn lemma_same_size_alone_decides_nothing(
    local_size: u64,
    content_length: Option<i64>,
    e_tag: Seq<char>,
)
    requires
        remote_size(content_length) == local_size,
        !is_composite(clean_tag(e_tag)),
    ensures
        exists|digest: Seq<char>|
            comparison(local_size, digest, content_length, Some(e_tag)) == FileComparison::Different,
{
    let tag = clean_tag(e_tag);
    let other = tag.push('x');
    assert(!eq_ignore_ascii_case(other, tag));
    assert(comparison(local_size, other, content_length, Some(e_tag)) == FileComparison::Different);
}

} // verus!
