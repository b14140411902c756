//! The metadata store: one record per tracked path.
//!
//! The store is a finite map from paths to records. Every operation is
//! stated over that map: what it does to the map when it succeeds, and that
//! it leaves the map alone when it fails. A store can only be built from a
//! builder that has been given its configuration and its connection, in that
//! order, and has then been sealed; the builder's type says how far it is.

use crate::configuration::MyFilesConfiguration;
use crate::file_info::{FileRecord, FileRecordView, Score};
use crate::text::same_text;
use crate::tidy_algo::{evaluate, spec_evaluate, RuleSet, RuleSetView};
use vstd::prelude::*;

verus! {

/// Why a store operation did not take place.
#[derive(Clone, Copy, Debug, PartialEq, Eq, Structural)]
pub enum StoreError {
    /// The path is already tracked.
    DuplicateKey,
    /// The path is not tracked.
    NotFound,
    /// What the storage holds cannot be the contents of a store.
    StorageError,
}

/// Mathematical value of a store: the records by their paths.
pub type StoreView = Map<Seq<char>, FileRecordView>;

/// Whether `listing` holds a record for `path` at position `at`.
pub open spec fn listed_at(listing: Seq<FileRecordView>, path: Seq<char>, at: int) -> bool {
    0 <= at < listing.len() && listing[at].path == path
}

/// Whether no two records of `listing` share a path.
pub open spec fn distinct_paths(listing: Seq<FileRecordView>) -> bool {
    forall|i: int, j: int|
        0 <= i < j < listing.len() ==> (#[trigger] listing[i]).path != (#[trigger] listing[j]).path
}

/// The store that holds the records of `listing`, each under its path.
pub open spec fn map_of(listing: Seq<FileRecordView>) -> StoreView {
    Map::new(
        |path: Seq<char>| exists|at: int| listed_at(listing, path, at),
        |path: Seq<char>| listing[choose|at: int| listed_at(listing, path, at)],
    )
}

/// The values of `records`, in order.
pub open spec fn record_views(records: Seq<FileRecord>) -> Seq<FileRecordView> {
    records.map_values(|record: FileRecord| record@)
}

/// Whether every record of `store` is kept under its own path.
pub open spec fn keyed_by_path(store: StoreView) -> bool {
    forall|path: Seq<char>| store.dom().contains(path) ==> (#[trigger] store[path]).path == path
}

/// What `add` does: a new record enters the store without a score.
pub open spec fn spec_add(store: StoreView, record: FileRecordView) -> Result<
    StoreView,
    StoreError,
> {
    if store.dom().contains(record.path) {
        Err(StoreError::DuplicateKey)
    } else {
        Ok(store.insert(record.path, record.unscored()))
    }
}

/// What `remove` does.
pub open spec fn spec_remove(store: StoreView, path: Seq<char>) -> Result<StoreView, StoreError> {
    if store.dom().contains(path) {
        Ok(store.remove(path))
    } else {
        Err(StoreError::NotFound)
    }
}

/// What `update_signature` does.
pub open spec fn spec_update_signature(
    store: StoreView,
    path: Seq<char>,
    signature: Seq<char>,
) -> Result<StoreView, StoreError> {
    if store.dom().contains(path) {
        Ok(store.insert(path, store[path].with_signature(signature)))
    } else {
        Err(StoreError::NotFound)
    }
}

/// What `update_last_modified` does.
pub open spec fn spec_update_last_modified(
    store: StoreView,
    path: Seq<char>,
    timestamp: u64,
) -> Result<StoreView, StoreError> {
    if store.dom().contains(path) {
        Ok(store.insert(path, store[path].with_last_modified(timestamp)))
    } else {
        Err(StoreError::NotFound)
    }
}

/// What `update_path` does: the record leaves its old key and enters under the new one.
pub open spec fn spec_update_path(store: StoreView, from: Seq<char>, to: Seq<char>) -> Result<
    StoreView,
    StoreError,
> {
    if !store.dom().contains(from) {
        Err(StoreError::NotFound)
    } else if store.dom().contains(to) {
        Err(StoreError::DuplicateKey)
    } else {
        Ok(store.remove(from).insert(to, store[from].moved_to(to)))
    }
}

/// What `set_score` does.
pub open spec fn spec_set_score(store: StoreView, path: Seq<char>, score: Score) -> Result<
    StoreView,
    StoreError,
> {
    if store.dom().contains(path) {
        Ok(store.insert(path, store[path].scored(score)))
    } else {
        Err(StoreError::NotFound)
    }
}

/// The score that `rule_set` gives to `record`.
pub open spec fn grade_of(record: FileRecordView, rule_set: RuleSetView) -> Score {
    spec_evaluate(record.attributes(), rule_set) as Score
}

/// What `update_grade` does: the record gets the score of its current attributes.
pub open spec fn spec_update_grade(store: StoreView, path: Seq<char>, rule_set: RuleSetView) -> Result<
    StoreView,
    StoreError,
> {
    if store.dom().contains(path) {
        Ok(store.insert(path, store[path].scored(grade_of(store[path], rule_set))))
    } else {
        Err(StoreError::NotFound)
    }
}

/// Whether `result` and the store `after` are what `expected` asks for,
/// starting from the store `before`: on success the expected store, on
/// failure the expected error and the store unchanged.
pub open spec fn follows(
    expected: Result<StoreView, StoreError>,
    before: StoreView,
    result: Result<(), StoreError>,
    after: StoreView,
) -> bool {
    match expected {
        Ok(store) => result is Ok && after == store,
        Err(error) => result == Err::<(), StoreError>(error) && after == before,
    }
}

/// In the store of a listing without repeated paths, every entry of the
/// listing is found under its path, nothing else is found, and each record
/// is kept under its own path.
pub proof fn lemma_map_of_distinct(listing: Seq<FileRecordView>)
    requires
        distinct_paths(listing),
    ensures
        forall|at: int|
            0 <= at < listing.len() ==> map_of(listing).dom().contains(
                (#[trigger] listing[at]).path,
            ) && map_of(listing)[listing[at].path] == listing[at],
        forall|path: Seq<char>| #[trigger]
            map_of(listing).dom().contains(path) <==> exists|at: int|
                listed_at(listing, path, at),
        keyed_by_path(map_of(listing)),
{
    assert forall|at: int| 0 <= at < listing.len() implies map_of(listing).dom().contains(
        (#[trigger] listing[at]).path,
    ) && map_of(listing)[listing[at].path] == listing[at] by {
        let path = listing[at].path;
        assert(listed_at(listing, path, at));
        let chosen = choose|k: int| listed_at(listing, path, k);
        assert(listed_at(listing, path, chosen));
        if chosen < at {
            assert(listing[chosen].path != listing[at].path);
        } else if at < chosen {
            assert(listing[at].path != listing[chosen].path);
        }
    }
    assert forall|path: Seq<char>| map_of(listing).dom().contains(path) implies (
    #[trigger] map_of(listing)[path]).path == path by {
        let chosen = choose|k: int| listed_at(listing, path, k);
        assert(listed_at(listing, path, chosen));
    }
}

proof fn lemma_push(before: Seq<FileRecordView>, entry: FileRecordView)
    requires
        distinct_paths(before),
        forall|at: int| !listed_at(before, entry.path, at),
    ensures
        distinct_paths(before.push(entry)),
        map_of(before.push(entry)) == map_of(before).insert(entry.path, entry),
{
    let after = before.push(entry);
    assert(distinct_paths(after)) by {
        assert forall|i: int, j: int| 0 <= i < j < after.len() implies (#[trigger] after[i]).path
            != (#[trigger] after[j]).path by {
            if j == before.len() {
                assert(!listed_at(before, entry.path, i));
            } else {
                assert(before[i].path != before[j].path);
            }
        }
    }
    lemma_map_of_distinct(before);
    lemma_map_of_distinct(after);
    let expected = map_of(before).insert(entry.path, entry);
    assert forall|path: Seq<char>| map_of(after).dom().contains(path) implies #[trigger]
        expected.dom().contains(path) && map_of(after)[path] == expected[path] by {
        let at = choose|at: int| listed_at(after, path, at);
        assert(after[at].path == path);
        if at < before.len() {
            assert(before[at] == after[at]);
            assert(listed_at(before, path, at));
        }
    }
    assert forall|path: Seq<char>| expected.dom().contains(path) implies #[trigger] map_of(
        after,
    ).dom().contains(path) by {
        if path == entry.path {
            assert(listed_at(after, path, before.len() as int));
        } else {
            let at = choose|at: int| listed_at(before, path, at);
            assert(listed_at(after, path, at));
        }
    }
    assert(map_of(after) =~= expected);
}

proof fn lemma_remove(before: Seq<FileRecordView>, at: int)
    requires
        distinct_paths(before),
        0 <= at < before.len(),
    ensures
        distinct_paths(before.remove(at)),
        map_of(before.remove(at)) == map_of(before).remove(before[at].path),
{
    let after = before.remove(at);
    assert(distinct_paths(after)) by {
        assert forall|i: int, j: int| 0 <= i < j < after.len() implies (#[trigger] after[i]).path
            != (#[trigger] after[j]).path by {
            let i0 = if i < at { i } else { i + 1 };
            let j0 = if j < at { j } else { j + 1 };
            assert(before[i0].path != before[j0].path);
        }
    }
    lemma_map_of_distinct(before);
    lemma_map_of_distinct(after);
    let expected = map_of(before).remove(before[at].path);
    assert forall|path: Seq<char>| map_of(after).dom().contains(path) implies #[trigger]
        expected.dom().contains(path) && map_of(after)[path] == expected[path] by {
        let k = choose|k: int| listed_at(after, path, k);
        let k0 = if k < at { k } else { k + 1 };
        assert(before[k0] == after[k]);
        assert(listed_at(before, path, k0));
        if k0 < at {
            assert(before[k0].path != before[at].path);
        } else {
            assert(before[at].path != before[k0].path);
        }
    }
    assert forall|path: Seq<char>| expected.dom().contains(path) implies #[trigger] map_of(
        after,
    ).dom().contains(path) by {
        let k0 = choose|k: int| listed_at(before, path, k);
        assert(k0 != at);
        let k = if k0 < at { k0 } else { k0 - 1 };
        assert(after[k] == before[k0]);
        assert(listed_at(after, path, k));
    }
    assert(map_of(after) =~= expected);
}

proof fn lemma_update(before: Seq<FileRecordView>, at: int, entry: FileRecordView)
    requires
        distinct_paths(before),
        0 <= at < before.len(),
        entry.path == before[at].path || forall|k: int| !listed_at(before, entry.path, k),
    ensures
        distinct_paths(before.update(at, entry)),
        map_of(before.update(at, entry)) == map_of(before).remove(before[at].path).insert(
            entry.path,
            entry,
        ),
{
    let after = before.update(at, entry);
    assert(distinct_paths(after)) by {
        assert forall|i: int, j: int| 0 <= i < j < after.len() implies (#[trigger] after[i]).path
            != (#[trigger] after[j]).path by {
            assert(before[i].path != before[j].path);
            if i == at {
                assert(!listed_at(before, entry.path, j) || entry.path == before[at].path);
            } else if j == at {
                assert(!listed_at(before, entry.path, i) || entry.path == before[at].path);
            }
        }
    }
    lemma_map_of_distinct(before);
    lemma_map_of_distinct(after);
    let expected = map_of(before).remove(before[at].path).insert(entry.path, entry);
    assert forall|path: Seq<char>| map_of(after).dom().contains(path) implies #[trigger]
        expected.dom().contains(path) && map_of(after)[path] == expected[path] by {
        let k = choose|k: int| listed_at(after, path, k);
        assert(after[k].path == path);
        if k != at {
            assert(before[k] == after[k]);
            assert(listed_at(before, path, k));
            if k < at {
                assert(before[k].path != before[at].path);
            } else {
                assert(before[at].path != before[k].path);
            }
            if path == entry.path {
                if k < at {
                    assert(after[k].path != after[at].path);
                } else {
                    assert(after[at].path != after[k].path);
                }
            }
        }
    }
    assert forall|path: Seq<char>| expected.dom().contains(path) implies #[trigger] map_of(
        after,
    ).dom().contains(path) by {
        if path == entry.path {
            assert(listed_at(after, path, at));
        } else {
            let k = choose|k: int| listed_at(before, path, k);
            assert(k != at);
            assert(listed_at(after, path, k));
        }
    }
    assert(map_of(after) =~= expected);
}

/// A listing without repeated paths gives a finite store with one record
/// for each of its entries.
pub proof fn lemma_map_of_is_finite(listing: Seq<FileRecordView>)
    requires
        distinct_paths(listing),
    ensures
        map_of(listing).dom().finite(),
        map_of(listing).dom().len() == listing.len(),
    decreases listing.len(),
{
    if listing.len() == 0 {
        assert(map_of(listing).dom() =~= Set::<Seq<char>>::empty());
    } else {
        let shorter = listing.drop_last();
        let entry = listing.last();
        assert(distinct_paths(shorter)) by {
            assert forall|i: int, j: int| 0 <= i < j < shorter.len() implies (
            #[trigger] shorter[i]).path != (#[trigger] shorter[j]).path by {
                assert(listing[i].path != listing[j].path);
            }
        }
        assert forall|at: int| !listed_at(shorter, entry.path, at) by {
            if listed_at(shorter, entry.path, at) {
                assert(listing[at].path != listing[listing.len() - 1].path);
            }
        }
        lemma_map_of_is_finite(shorter);
        lemma_push(shorter, entry);
        lemma_map_of_distinct(shorter);
        assert(shorter.push(entry) =~= listing);
        assert(map_of(listing).dom() =~= map_of(shorter).dom().insert(entry.path));
    }
}

/// A connection to the storage: the records that the storage held when it
/// was opened.
#[derive(Clone, Debug)]
pub struct ConnectionManager {
    stored: Vec<FileRecord>,
}

impl View for ConnectionManager {
    type V = Seq<FileRecordView>;

    closed spec fn view(&self) -> Seq<FileRecordView> {
        record_views(self.stored@)
    }
}

impl ConnectionManager {
    /// A connection to a storage that held `stored`.
    pub fn new(stored: Vec<FileRecord>) -> (connection: ConnectionManager)
        ensures
            connection@ == record_views(stored@),
    {
        ConnectionManager { stored }
    }
}

/// The metadata store.
#[derive(Clone, Debug)]
pub struct MyFiles {
    configuration: MyFilesConfiguration,
    records: Vec<FileRecord>,
}

impl View for MyFiles {
    type V = StoreView;

    closed spec fn view(&self) -> StoreView {
        map_of(record_views(self.records@))
    }
}

impl MyFiles {
    /// The store's invariant: no two of its records share a path. Every
    /// store that this library hands out satisfies it, and every operation
    /// keeps it.
    pub closed spec fn wf(&self) -> bool {
        distinct_paths(record_views(self.records@))
    }

    /// Where the store keeps its records.
    pub closed spec fn db_path(&self) -> Seq<char> {
        self.configuration.db_path@
    }

    /// Whether the store empties itself when it is initialised.
    pub closed spec fn drop_db_on_start(&self) -> bool {
        self.configuration.drop_db_on_start
    }

    /// The configuration that the store was built with.
    pub fn configuration(&self) -> (configuration: &MyFilesConfiguration)
        ensures
            configuration.db_path@ == self.db_path(),
            configuration.drop_db_on_start == self.drop_db_on_start(),
    {
        &self.configuration
    }

    fn position_of(&self, path: &str) -> (position: Option<usize>)
        requires
            self.wf(),
        ensures
            match position {
                Some(at) => listed_at(record_views(self.records@), path@, at as int),
                None => forall|at: int| !listed_at(record_views(self.records@), path@, at),
            },
            match position {
                Some(at) => self@.dom().contains(path@) && self@[path@] == self.records@[at as int]@,
                None => !self@.dom().contains(path@),
            },
    {
        let mut at: usize = 0;
        while at < self.records.len()
            invariant
                self.wf(),
                at <= self.records.len(),
                forall|k: int| 0 <= k < at ==> !listed_at(record_views(self.records@), path@, k),
            decreases self.records.len() - at,
        {
            if same_text(self.records[at].path.as_str(), path) {
                proof {
                    lemma_map_of_distinct(record_views(self.records@));
                    assert(listed_at(record_views(self.records@), path@, at as int));
                }
                return Some(at);
            }
            at = at + 1;
        }
        proof {
            lemma_map_of_distinct(record_views(self.records@));
        }
        None
    }

    /// Sets up the store for use. A store that is configured to start empty
    /// drops all its records, and the result says so; any other store keeps
    /// what it holds.
    pub fn init_db(&mut self) -> (dropped: bool)
        requires
            old(self).wf(),
        ensures
            final(self).wf(),
            dropped == old(self).drop_db_on_start(),
            dropped ==> final(self)@ == Map::<Seq<char>, FileRecordView>::empty(),
            !dropped ==> final(self)@ == old(self)@,
            final(self).db_path() == old(self).db_path(),
            final(self).drop_db_on_start() == old(self).drop_db_on_start(),
    {
        if self.configuration.drop_db_on_start {
            self.records.clear();
            assert(self@ =~= Map::<Seq<char>, FileRecordView>::empty());
            true
        } else {
            false
        }
    }

    /// Whether `path` is tracked.
    pub fn contains(&self, path: &str) -> (present: bool)
        requires
            self.wf(),
        ensures
            present == self@.dom().contains(path@),
    {
        self.position_of(path).is_some()
    }

    /// The record kept for `path`, if it is tracked.
    pub fn get(&self, path: &str) -> (record: Option<FileRecord>)
        requires
            self.wf(),
        ensures
            match record {
                Some(record) => self@.dom().contains(path@) && record@ == self@[path@],
                None => !self@.dom().contains(path@),
            },
    {
        match self.position_of(path) {
            Some(at) => Some(self.records[at].duplicate()),
            None => None,
        }
    }

    /// Starts tracking a file. The record enters without a score, whatever
    /// score `record` carries. Fails with `DuplicateKey` if its path is tracked already.
    pub fn add(&mut self, record: FileRecord) -> (result: Result<(), StoreError>)
        requires
            old(self).wf(),
        ensures
            final(self).wf(),
            follows(spec_add(old(self)@, record@), old(self)@, result, final(self)@),
            final(self).db_path() == old(self).db_path(),
            final(self).drop_db_on_start() == old(self).drop_db_on_start(),
    {
        match self.position_of(record.path.as_str()) {
            Some(_) => Err(StoreError::DuplicateKey),
            None => {
                let ghost before = record_views(self.records@);
                let entry = FileRecord {
                    path: record.path,
                    size: record.size,
                    content_signature: record.content_signature,
                    last_modified: record.last_modified,
                    tidy_score: None,
                };
                proof {
                    assert(record_views(self.records@.push(entry)) =~= before.push(entry@));
                    lemma_push(before, entry@);
                }
                self.records.push(entry);
                Ok(())
            },
        }
    }
    /// Stops tracking `path`. Fails with `NotFound` if it is not tracked.
    pub fn remove(&mut self, path: &str) -> (result: Result<(), StoreError>)
        requires
            old(self).wf(),
        ensures
            final(self).wf(),
            follows(spec_remove(old(self)@, path@), old(self)@, result, final(self)@),
            final(self).db_path() == old(self).db_path(),
            final(self).drop_db_on_start() == old(self).drop_db_on_start(),
    {
        match self.position_of(path) {
            None => Err(StoreError::NotFound),
            Some(at) => {
                let ghost before = record_views(self.records@);
                proof {
                    assert(record_views(self.records@.remove(at as int)) =~= before.remove(
                        at as int,
                    ));
                    lemma_remove(before, at as int);
                }
                let _ = self.records.remove(at);
                Ok(())
            },
        }
    }

    /// Puts `entry` in the place of the record at position `at`.
    fn replace_at(&mut self, at: usize, entry: FileRecord)
        requires
            old(self).wf(),
            at < old(self).records@.len(),
            entry@.path == old(self).records@[at as int]@.path || !old(self)@.dom().contains(
                entry@.path,
            ),
        ensures
            final(self).wf(),
            final(self)@ == old(self)@.remove(old(self).records@[at as int]@.path).insert(
                entry@.path,
                entry@,
            ),
            final(self).db_path() == old(self).db_path(),
            final(self).drop_db_on_start() == old(self).drop_db_on_start(),
    {
        let ghost before = record_views(self.records@);
        proof {
            lemma_map_of_distinct(before);
            assert(record_views(self.records@.update(at as int, entry)) =~= before.update(
                at as int,
                entry@,
            ));
            if entry@.path != before[at as int].path {
                assert forall|k: int| !listed_at(before, entry@.path, k) by {}
            }
            lemma_update(before, at as int, entry@);
        }
        self.records.set(at, entry);
    }

    /// Records a new content signature for `path`. Fails with `NotFound` if
    /// the path is not tracked.
    pub fn update_signature(&mut self, path: &str, signature: String) -> (result: Result<
        (),
        StoreError,
    >)
        requires
            old(self).wf(),
        ensures
            final(self).wf(),
            follows(
                spec_update_signature(old(self)@, path@, signature@),
                old(self)@,
                result,
                final(self)@,
            ),
            final(self).db_path() == old(self).db_path(),
            final(self).drop_db_on_start() == old(self).drop_db_on_start(),
    {
        match self.position_of(path) {
            None => Err(StoreError::NotFound),
            Some(at) => {
                let current = &self.records[at];
                let entry = FileRecord {
                    path: current.path.clone(),
                    size: current.size,
                    content_signature: signature,
                    last_modified: current.last_modified,
                    tidy_score: current.tidy_score,
                };
                self.replace_at(at, entry);
                assert(final(self)@ =~= old(self)@.insert(
                    path@,
                    old(self)@[path@].with_signature(signature@),
                ));
                Ok(())
            },
        }
    }

    /// Records a new modification time for `path`. Fails with `NotFound` if
    /// the path is not tracked.
    pub fn update_last_modified(&mut self, path: &str, timestamp: u64) -> (result: Result<
        (),
        StoreError,
    >)
        requires
            old(self).wf(),
        ensures
            final(self).wf(),
            follows(
                spec_update_last_modified(old(self)@, path@, timestamp),
                old(self)@,
                result,
                final(self)@,
            ),
            final(self).db_path() == old(self).db_path(),
            final(self).drop_db_on_start() == old(self).drop_db_on_start(),
    {
        match self.position_of(path) {
            None => Err(StoreError::NotFound),
            Some(at) => {
                let current = &self.records[at];
                let entry = FileRecord {
                    path: current.path.clone(),
                    size: current.size,
                    content_signature: current.content_signature.clone(),
                    last_modified: timestamp,
                    tidy_score: current.tidy_score,
                };
                self.replace_at(at, entry);
                assert(final(self)@ =~= old(self)@.insert(
                    path@,
                    old(self)@[path@].with_last_modified(timestamp),
                ));
                Ok(())
            },
        }
    }

    /// Moves the record of `from` to the key `to`. Fails with `NotFound` if
    /// `from` is not tracked, else with `DuplicateKey` if `to` is tracked.
    pub fn update_path(&mut self, from: &str, to: &str) -> (result: Result<(), StoreError>)
        requires
            old(self).wf(),
        ensures
            final(self).wf(),
            follows(spec_update_path(old(self)@, from@, to@), old(self)@, result, final(self)@),
            final(self).db_path() == old(self).db_path(),
            final(self).drop_db_on_start() == old(self).drop_db_on_start(),
    {
        match self.position_of(from) {
            None => Err(StoreError::NotFound),
            Some(at) => {
                if self.position_of(to).is_some() {
                    return Err(StoreError::DuplicateKey);
                }
                let current = &self.records[at];
                let entry = FileRecord {
                    path: to.to_owned(),
                    size: current.size,
                    content_signature: current.content_signature.clone(),
                    last_modified: current.last_modified,
                    tidy_score: current.tidy_score,
                };
                self.replace_at(at, entry);
                Ok(())
            },
        }
    }

    /// Records `score` as the score of `path`. Fails with `NotFound` if the
    /// path is not tracked.
    pub fn set_score(&mut self, path: &str, score: Score) -> (result: Result<(), StoreError>)
        requires
            old(self).wf(),
        ensures
            final(self).wf(),
            follows(spec_set_score(old(self)@, path@, score), old(self)@, result, final(self)@),
            final(self).db_path() == old(self).db_path(),
            final(self).drop_db_on_start() == old(self).drop_db_on_start(),
    {
        match self.position_of(path) {
            None => Err(StoreError::NotFound),
            Some(at) => {
                let current = &self.records[at];
                let entry = FileRecord {
                    path: current.path.clone(),
                    size: current.size,
                    content_signature: current.content_signature.clone(),
                    last_modified: current.last_modified,
                    tidy_score: Some(score),
                };
                self.replace_at(at, entry);
                assert(final(self)@ =~= old(self)@.insert(path@, old(self)@[path@].scored(score)));
                Ok(())
            },
        }
    }

    /// Scores the record of `path` anew: reads its attributes, evaluates
    /// them under `rule_set`, and writes the score back, in one step. Fails
    /// with `NotFound` if the path is not tracked.
    pub fn update_grade(&mut self, path: &str, rule_set: &RuleSet) -> (result: Result<
        (),
        StoreError,
    >)
        requires
            old(self).wf(),
        ensures
            final(self).wf(),
            follows(
                spec_update_grade(old(self)@, path@, rule_set@),
                old(self)@,
                result,
                final(self)@,
            ),
            final(self).db_path() == old(self).db_path(),
            final(self).drop_db_on_start() == old(self).drop_db_on_start(),
    {
        match self.position_of(path) {
            None => Err(StoreError::NotFound),
            Some(at) => {
                let current = &self.records[at];
                let score = evaluate(&current.attributes(), rule_set);
                let entry = FileRecord {
                    path: current.path.clone(),
                    size: current.size,
                    content_signature: current.content_signature.clone(),
                    last_modified: current.last_modified,
                    tidy_score: Some(score),
                };
                self.replace_at(at, entry);
                assert(final(self)@ =~= old(self)@.insert(
                    path@,
                    old(self)@[path@].scored(grade_of(old(self)@[path@], rule_set@)),
                ));
                Ok(())
            },
        }
    }

    /// A snapshot of all records, in no particular order: each tracked path
    /// once, with the record kept for it.
    pub fn list_all(&self) -> (listing: Vec<FileRecord>)
        requires
            self.wf(),
        ensures
            distinct_paths(record_views(listing@)),
            map_of(record_views(listing@)) == self@,
    {
        let mut listing: Vec<FileRecord> = Vec::new();
        let mut at: usize = 0;
        while at < self.records.len()
            invariant
                at <= self.records.len(),
                record_views(listing@) == record_views(self.records@).take(at as int),
            decreases self.records.len() - at,
        {
            let ghost before = listing@;
            let copy = self.records[at].duplicate();
            listing.push(copy);
            proof {
                let all = record_views(self.records@);
                assert(record_views(listing@) =~= record_views(before).push(copy@));
                assert(all.take(at + 1) =~= all.take(at as int).push(all[at as int]));
            }
            at = at + 1;
        }
        assert(record_views(self.records@).take(at as int) =~= record_views(self.records@));
        listing
    }

    /// The number of tracked paths.
    pub fn len(&self) -> (len: usize)
        requires
            self.wf(),
        ensures
            self@.dom().finite(),
            len == self@.dom().len(),
    {
        proof {
            lemma_map_of_is_finite(record_views(self.records@));
        }
        self.records.len()
    }

    /// What holds of the value of every well-formed store: it is finite, and
    /// each record is kept under its own path.
    pub proof fn lemma_view_is_valid(&self)
        requires
            self.wf(),
        ensures
            self@.dom().finite(),
            keyed_by_path(self@),
    {
        lemma_map_of_is_finite(record_views(self.records@));
        lemma_map_of_distinct(record_views(self.records@));
    }
}

/// Stage of a builder that has no configuration yet.
#[derive(Clone, Debug)]
pub struct NoConfiguration;

/// Stage of a builder that holds its configuration.
#[derive(Clone, Debug)]
pub struct ConfigurationPresent(MyFilesConfiguration);

/// Stage of a builder that has no connection yet.
#[derive(Clone, Debug)]
pub struct NoConnectionManager;

/// Stage of a builder that holds its connection.
#[derive(Clone, Debug)]
pub struct ConnectionManagerPresent(ConnectionManager);

/// Stage of a builder that can still be changed.
#[derive(Clone, Debug)]
pub struct NotSealed;

/// Stage of a builder that is complete.
#[derive(Clone, Debug)]
pub struct Sealed;

/// Builds a store in stages. The three type parameters say whether the
/// configuration has been given, whether the connection has been given, and
/// whether the builder is sealed. Only a sealed builder can build, and only a
/// builder that holds both can be sealed, so no store exists half-configured.
#[derive(Clone, Debug)]
pub struct MyFilesBuilder<C, M, S> {
    configuration: C,
    connection_manager: M,
    seal: S,
}

impl MyFilesBuilder<NoConfiguration, NoConnectionManager, NotSealed> {
    /// A builder that holds nothing yet.
    pub fn new() -> (builder: Self) {
        MyFilesBuilder {
            configuration: NoConfiguration,
            connection_manager: NoConnectionManager,
            seal: NotSealed,
        }
    }

    /// First stage: the configuration.
    pub fn configure(self, configuration: MyFilesConfiguration) -> (builder: MyFilesBuilder<
        ConfigurationPresent,
        NoConnectionManager,
        NotSealed,
    >)
        ensures
            builder.db_path() == configuration.db_path@,
            builder.drop_db_on_start() == configuration.drop_db_on_start,
    {
        MyFilesBuilder {
            configuration: ConfigurationPresent(configuration),
            connection_manager: NoConnectionManager,
            seal: NotSealed,
        }
    }
}

impl<M, S> MyFilesBuilder<ConfigurationPresent, M, S> {
    /// Where the store to build keeps its records.
    pub closed spec fn db_path(&self) -> Seq<char> {
        self.configuration.0.db_path@
    }

    /// Whether the store to build empties itself when it is initialised.
    pub closed spec fn drop_db_on_start(&self) -> bool {
        self.configuration.0.drop_db_on_start
    }
}

impl<C, S> MyFilesBuilder<C, ConnectionManagerPresent, S> {
    /// The records that the storage held when the connection was opened.
    pub closed spec fn stored(&self) -> Seq<FileRecordView> {
        self.connection_manager.0@
    }
}

impl MyFilesBuilder<ConfigurationPresent, NoConnectionManager, NotSealed> {
    /// Second stage: the connection to the storage.
    pub fn connection_manager(self, connection_manager: ConnectionManager) -> (builder:
        MyFilesBuilder<ConfigurationPresent, ConnectionManagerPresent, NotSealed>)
        ensures
            builder.db_path() == self.db_path(),
            builder.drop_db_on_start() == self.drop_db_on_start(),
            builder.stored() == connection_manager@,
    {
        MyFilesBuilder {
            configuration: self.configuration,
            connection_manager: ConnectionManagerPresent(connection_manager),
            seal: NotSealed,
        }
    }
}

impl MyFilesBuilder<ConfigurationPresent, ConnectionManagerPresent, NotSealed> {
    /// Last stage: nothing more can be changed.
    pub fn seal(self) -> (builder: MyFilesBuilder<
        ConfigurationPresent,
        ConnectionManagerPresent,
        Sealed,
    >)
        ensures
            builder.db_path() == self.db_path(),
            builder.drop_db_on_start() == self.drop_db_on_start(),
            builder.stored() == self.stored(),
    {
        MyFilesBuilder {
            configuration: self.configuration,
            connection_manager: self.connection_manager,
            seal: Sealed,
        }
    }
}

impl MyFilesBuilder<ConfigurationPresent, ConnectionManagerPresent, Sealed> {
    /// Builds a store that holds what the storage held. Fails with
    /// `StorageError` if and only if two of the stored records share a path.
    pub fn build(&self) -> (result: Result<MyFiles, StoreError>)
        ensures
            match result {
                Ok(store) => {
                    &&& distinct_paths(self.stored())
                    &&& store.wf()
                    &&& store@ == map_of(self.stored())
                    &&& store.db_path() == self.db_path()
                    &&& store.drop_db_on_start() == self.drop_db_on_start()
                },
                Err(error) => error == StoreError::StorageError && !distinct_paths(self.stored()),
            },
    {
        let stored = &self.connection_manager.0.stored;
        let mut store = MyFiles {
            configuration: MyFilesConfiguration {
                db_path: self.configuration.0.db_path.clone(),
                drop_db_on_start: self.configuration.0.drop_db_on_start,
            },
            records: Vec::new(),
        };
        let ghost all = record_views(stored@);
        let mut at: usize = 0;
        while at < stored.len()
            invariant
                at <= stored.len(),
                all == record_views(stored@),
                all == self.stored(),
                store.wf(),
                record_views(store.records@) == all.take(at as int),
                store.db_path() == self.db_path(),
                store.drop_db_on_start() == self.drop_db_on_start(),
            decreases stored.len() - at,
        {
            let record = &stored[at];
            match store.position_of(record.path.as_str()) {
                Some(earlier) => {
                    proof {
                        assert(all.take(at as int)[earlier as int] == all[earlier as int]);
                        assert(all[earlier as int].path == all[at as int].path);
                        assert(!distinct_paths(all));
                    }
                    return Err(StoreError::StorageError);
                },
                None => {
                    let ghost before = record_views(store.records@);
                    let copy = record.duplicate();
                    proof {
                        assert(record_views(store.records@.push(copy)) =~= before.push(copy@));
                        lemma_push(before, copy@);
                        assert(all.take(at + 1) =~= all.take(at as int).push(all[at as int]));
                    }
                    store.records.push(copy);
                },
            }
            at = at + 1;
        }
        assert(all.take(at as int) =~= all);
        Ok(store)
    }
}

/// Adding an untracked path succeeds, a listing of the store then shows the
/// path exactly once, and adding it a second time fails with `DuplicateKey`.
pub proof fn lemma_add_then_list(
    store: StoreView,
    record: FileRecordView,
    again: FileRecordView,
    listing: Seq<FileRecordView>,
)
    requires
        !store.dom().contains(record.path),
        again.path == record.path,
        distinct_paths(listing),
        spec_add(store, record) is Ok ==> map_of(listing) == spec_add(store, record)->Ok_0,
    ensures
        spec_add(store, record) is Ok,
        exists|at: int|
            #![trigger listing[at]]
            listed_at(listing, record.path, at) && listing[at] == record.unscored()
                && forall|other: int|
                listed_at(listing, record.path, other) ==> other == at,
        spec_add(spec_add(store, record)->Ok_0, again) == Err::<StoreView, StoreError>(
            StoreError::DuplicateKey,
        ),
{
    let after = spec_add(store, record)->Ok_0;
    lemma_map_of_distinct(listing);
    assert(after.dom().contains(record.path));
    let at = choose|at: int| listed_at(listing, record.path, at);
    assert(listed_at(listing, record.path, at));
    assert(map_of(listing)[listing[at].path] == listing[at]);
    assert forall|other: int| listed_at(listing, record.path, other) implies other == at by {
        if other < at {
            assert(listing[other].path != listing[at].path);
        } else if at < other {
            assert(listing[at].path != listing[other].path);
        }
    }
}

/// Removing a tracked path succeeds once; removing it again fails with `NotFound`.
pub proof fn lemma_remove_twice(store: StoreView, path: Seq<char>)
    requires
        store.dom().contains(path),
    ensures
        spec_remove(store, path) is Ok,
        spec_remove(spec_remove(store, path)->Ok_0, path) == Err::<StoreView, StoreError>(
            StoreError::NotFound,
        ),
{
}

/// Moving a record from `from` to an untracked `to` and back again restores
/// the store: every record, the moved one included, is as it was.
pub proof fn lemma_update_path_round_trip(store: StoreView, from: Seq<char>, to: Seq<char>)
    requires
        keyed_by_path(store),
        store.dom().contains(from),
        !store.dom().contains(to),
    ensures
        spec_update_path(store, from, to) is Ok,
        spec_update_path(spec_update_path(store, from, to)->Ok_0, to, from) == Ok::<
            StoreView,
            StoreError,
        >(store),
{
    let there = spec_update_path(store, from, to)->Ok_0;
    assert(there.dom().contains(to));
    assert(!there.dom().contains(from));
    let back = there.remove(to).insert(from, there[to].moved_to(from));
    assert(store[from].path == from);
    assert(there[to].moved_to(from) == store[from]);
    assert(back =~= store);
}

} // verus!
