//! Answering the query "the first files by size, or by last update".
//!
//! The store lists its records in no particular order. A query puts them in
//! descending order of the attribute it names and keeps the first few.

use crate::file_info::{FileRecord, FileRecordView};
use crate::my_files::record_views;
use crate::text::same_text;
use vstd::prelude::*;

verus! {

/// The attribute by which a query orders the files.
#[derive(Clone, Copy, Debug, PartialEq, Eq, Structural)]
pub enum SortKey {
    Size,
    LastUpdate,
}

/// What `str::to_lowercase` returns for a string with the characters `text`:
/// the text with every character replaced by its lower-case form, as the
/// Unicode character tables give it.
pub uninterp spec fn spec_lowercase(text: Seq<char>) -> Seq<char>;

/// The attribute that the lower-case name `lowered` stands for.
pub open spec fn spec_sort_key(lowered: Seq<char>) -> Option<SortKey> {
    if lowered == "size"@ {
        Some(SortKey::Size)
    } else if lowered == "last_update"@ {
        Some(SortKey::LastUpdate)
    } else {
        None
    }
}

/// The value of `record` under `key`.
pub open spec fn sort_value(record: FileRecordView, key: SortKey) -> u64 {
    match key {
        SortKey::Size => record.size,
        SortKey::LastUpdate => record.last_modified,
    }
}

/// The records of `listing` whose value under `key` is `value`, in the order
/// that they have in `listing`.
pub open spec fn with_value(listing: Seq<FileRecordView>, key: SortKey, value: u64) -> Seq<
    FileRecordView,
> {
    listing.filter(|record: FileRecordView| sort_value(record, key) == value)
}

/// Whether `sorted` holds the records of `listing` in descending order of
/// `key`, records with equal values in the order that they have in `listing`.
pub open spec fn is_stable_sort_of(
    sorted: Seq<FileRecordView>,
    listing: Seq<FileRecordView>,
    key: SortKey,
) -> bool {
    &&& sorted.len() == listing.len()
    &&& forall|i: int, j: int|
        0 <= i < j < sorted.len() ==> sort_value(#[trigger] sorted[i], key) >= sort_value(
            #[trigger] sorted[j],
            key,
        )
    &&& forall|value: u64| #[trigger]
        with_value(sorted, key, value) == with_value(listing, key, value)
}

/// Calls `str::to_lowercase`. The result is a function of the characters of
/// `text` alone.
#[verifier::external_body]
fn lowercase(text: &str) -> (lowered: String)
    ensures
        lowered@ == spec_lowercase(text@),
{
    text.to_lowercase()
}

/// The place of `record` in an ascending order that puts the largest value
/// under `key` first.
fn descending_rank(record: &FileRecord, key: SortKey) -> (rank: u64)
    ensures
        rank == u64::MAX - sort_value(record@, key),
{
    match key {
        SortKey::Size => u64::MAX - record.size,
        SortKey::LastUpdate => u64::MAX - record.last_modified,
    }
}

/// Calls `slice::sort_by_key`, which sorts in ascending order of the key
/// that the closure extracts and keeps the order of elements with equal
/// keys. The key is `descending_rank`, so the largest value comes first.
#[verifier::external_body]
fn sort_descending(files: &mut Vec<FileRecord>, key: SortKey)
    ensures
        is_stable_sort_of(record_views(final(files)@), record_views(old(files)@), key),
{
    files.sort_by_key(|record| descending_rank(record, key));
}

impl SortKey {
    /// The attribute that the lower-case name `lowered` stands for: `size`
    /// for the size, `last_update` for the modification time.
    pub fn from_lowered(lowered: &str) -> (key: Option<SortKey>)
        ensures
            key == spec_sort_key(lowered@),
    {
        if same_text(lowered, "size") {
            Some(SortKey::Size)
        } else if same_text(lowered, "last_update") {
            Some(SortKey::LastUpdate)
        } else {
            None
        }
    }

    /// The attribute that `name` stands for, whatever the case of its letters.
    pub fn parse(name: &str) -> (key: Option<SortKey>)
        ensures
            key == spec_sort_key(spec_lowercase(name@)),
    {
        let lowered = lowercase(name);
        SortKey::from_lowered(lowered.as_str())
    }

    /// The attribute that `name` stands for; the size if it stands for none.
    pub fn parse_or_size(name: &str) -> (key: SortKey)
        ensures
            key == match spec_sort_key(spec_lowercase(name@)) {
                Some(key) => key,
                None => SortKey::Size,
            },
    {
        match SortKey::parse(name) {
            Some(key) => key,
            None => SortKey::Size,
        }
    }
}

/// The first `count` of `files` in descending order of `key`, or all of them
/// if there are fewer. Files with equal values come in the order in which
/// `files` holds them.
pub fn get_files(files: Vec<FileRecord>, count: usize, key: SortKey) -> (selected: Vec<FileRecord>)
    ensures
        exists|sorted: Seq<FileRecordView>|
            #![trigger is_stable_sort_of(sorted, record_views(files@), key)]
            is_stable_sort_of(sorted, record_views(files@), key) && record_views(selected@)
                == sorted.take(
                if count <= sorted.len() {
                    count as int
                } else {
                    sorted.len() as int
                },
            ),
{
    let mut selected = files;
    sort_descending(&mut selected, key);
    let ghost sorted = record_views(selected@);
    if count < selected.len() {
        selected.truncate(count);
        assert(record_views(selected@) =~= sorted.take(count as int));
    } else {
        assert(sorted.take(sorted.len() as int) =~= sorted);
    }
    selected
}

} // verus!
