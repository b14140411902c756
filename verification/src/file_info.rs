//! The record kept for one tracked file, and the attributes that scoring reads.

use crate::text::{decimal_text, render_decimal};
use vstd::prelude::*;

verus! {

/// Sum of the weights of the rules that a file satisfies.
pub type Score = u128;

/// What the rule engine reads of a file.
#[derive(Clone, Debug, PartialEq, Eq)]
pub struct FileAttributes {
    pub path: String,
    pub size: u64,
    pub last_modified: u64,
}

/// Mathematical value of a [`FileAttributes`].
pub struct FileAttributesView {
    pub path: Seq<char>,
    pub size: u64,
    pub last_modified: u64,
}

impl View for FileAttributes {
    type V = FileAttributesView;

    open spec fn view(&self) -> FileAttributesView {
        FileAttributesView { path: self.path@, size: self.size, last_modified: self.last_modified }
    }
}

/// One tracked file. `path` is its only stable identity.
#[derive(Clone, Debug, PartialEq, Eq)]
pub struct FileRecord {
    pub path: String,
    pub size: u64,
    pub content_signature: String,
    pub last_modified: u64,
    pub tidy_score: Option<Score>,
}

/// Mathematical value of a [`FileRecord`].
pub struct FileRecordView {
    pub path: Seq<char>,
    pub size: u64,
    pub content_signature: Seq<char>,
    pub last_modified: u64,
    pub tidy_score: Option<Score>,
}

impl View for FileRecord {
    type V = FileRecordView;

    open spec fn view(&self) -> FileRecordView {
        FileRecordView {
            path: self.path@,
            size: self.size,
            content_signature: self.content_signature@,
            last_modified: self.last_modified,
            tidy_score: self.tidy_score,
        }
    }
}

impl FileRecordView {
    /// The attributes of this record that scoring depends on.
    pub open spec fn attributes(self) -> FileAttributesView {
        FileAttributesView { path: self.path, size: self.size, last_modified: self.last_modified }
    }

    /// This record with its score removed.
    pub open spec fn unscored(self) -> FileRecordView {
        FileRecordView { tidy_score: None, ..self }
    }

    /// This record with the given score.
    pub open spec fn scored(self, score: Score) -> FileRecordView {
        FileRecordView { tidy_score: Some(score), ..self }
    }

    /// This record under another path.
    pub open spec fn moved_to(self, path: Seq<char>) -> FileRecordView {
        FileRecordView { path, ..self }
    }

    /// This record with another content signature.
    pub open spec fn with_signature(self, signature: Seq<char>) -> FileRecordView {
        FileRecordView { content_signature: signature, ..self }
    }

    /// This record with another modification time.
    pub open spec fn with_last_modified(self, timestamp: u64) -> FileRecordView {
        FileRecordView { last_modified: timestamp, ..self }
    }
}

impl FileRecord {
    /// A record for a file seen for the first time: it has no score yet.
    pub fn new(path: String, size: u64, content_signature: String, last_modified: u64) -> (record:
        FileRecord)
        ensures
            record@ == (FileRecordView {
                path: path@,
                size,
                content_signature: content_signature@,
                last_modified,
                tidy_score: None,
            }),
    {
        FileRecord { path, size, content_signature, last_modified, tidy_score: None }
    }

    /// The attributes that scoring depends on.
    pub fn attributes(&self) -> (attributes: FileAttributes)
        ensures
            attributes@ == self@.attributes(),
    {
        FileAttributes {
            path: self.path.clone(),
            size: self.size,
            last_modified: self.last_modified,
        }
    }

    /// Whether the rule engine has scored this file at least once.
    pub fn is_scored(&self) -> (scored: bool)
        ensures
            scored == self@.tidy_score.is_some(),
    {
        self.tidy_score.is_some()
    }

    /// A copy with the same value.
    pub fn duplicate(&self) -> (copy: FileRecord)
        ensures
            copy@ == self@,
    {
        FileRecord {
            path: self.path.clone(),
            size: self.size,
            content_signature: self.content_signature.clone(),
            last_modified: self.last_modified,
            tidy_score: self.tidy_score,
        }
    }
}

/// The digest of no content at all.
pub const DIGEST_OFFSET: u64 = 0xcbf2_9ce4_8422_2325;

/// The factor by which the digest is multiplied after each byte.
pub const DIGEST_PRIME: u64 = 0x0000_0100_0000_01b3;

/// The digest of `content`: starting from the offset, each byte in turn is
/// combined into the digest by exclusive or, and the digest is then
/// multiplied by the prime, keeping the lowest 64 bits.
pub open spec fn spec_digest(content: Seq<u8>) -> u64
    decreases content.len(),
{
    if content.len() == 0 {
        DIGEST_OFFSET
    } else {
        (spec_digest(content.drop_last()) ^ (content.last() as u64)).wrapping_mul(DIGEST_PRIME)
    }
}

/// The digest of `content`.
pub fn digest(content: &[u8]) -> (value: u64)
    ensures
        value == spec_digest(content@),
{
    let mut value: u64 = DIGEST_OFFSET;
    let mut at: usize = 0;
    while at < content.len()
        invariant
            at <= content.len(),
            value == spec_digest(content@.take(at as int)),
        decreases content.len() - at,
    {
        assert(content@.take(at + 1).drop_last() =~= content@.take(at as int));
        value = (value ^ (content[at] as u64)).wrapping_mul(DIGEST_PRIME);
        at = at + 1;
    }
    assert(content@.take(at as int) =~= content@);
    value
}

/// The signature of a file with the content `content`: its digest, written
/// in base ten.
pub fn content_signature(content: &[u8]) -> (signature: String)
    ensures
        signature@ == decimal_text(spec_digest(content@) as nat),
{
    render_decimal(digest(content))
}

} // verus!
