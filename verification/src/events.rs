//! The event normaliser: from raw filesystem notifications to store
//! mutations followed by rescoring.
//!
//! A raw notification names a kind and one or two paths. It is first mapped
//! to a canonical action. The caller then looks at the filesystem and hands
//! in what it saw as an [`Observation`]; the action is applied to the store
//! only if the observation bears it out, so that a stale or repeated
//! notification changes nothing. Every change of an attribute that scoring
//! reads is followed at once by a rescoring of the same path.

use crate::file_info::{FileRecord, FileRecordView};
use crate::my_files::{
    distinct_paths, follows, grade_of, lemma_map_of_distinct, listed_at, map_of, record_views,
    spec_add, spec_remove, spec_update_grade, spec_update_last_modified,
    spec_update_path, spec_update_signature, MyFiles, StoreError, StoreView,
};
use crate::tidy_algo::{RuleSet, RuleSetView};
use vstd::prelude::*;

verus! {

/// What was modified, as the watcher reports it.
#[derive(Clone, Copy, Debug, PartialEq, Eq, Structural)]
pub enum ModifyKind {
    Any,
    /// The content of the file.
    Data,
    /// The metadata of the file.
    Metadata,
    /// The name of the file: a rename or a move.
    Name,
    Other,
}

/// The kind of a raw notification, as the watcher reports it.
#[derive(Clone, Copy, Debug, PartialEq, Eq, Structural)]
pub enum SignalKind {
    Any,
    Access,
    Create,
    Modify(ModifyKind),
    Remove,
    Other,
}

/// A raw notification: its kind and the paths it is about, two for a rename
/// (from, to) and one otherwise.
#[derive(Clone, Debug, PartialEq, Eq)]
pub struct RawSignal {
    pub kind: SignalKind,
    pub paths: Vec<String>,
}

/// Mathematical value of a [`RawSignal`].
pub struct RawSignalView {
    pub kind: SignalKind,
    pub paths: Seq<Seq<char>>,
}

impl View for RawSignal {
    type V = RawSignalView;

    open spec fn view(&self) -> RawSignalView {
        RawSignalView { kind: self.kind, paths: self.paths@.map_values(|path: String| path@) }
    }
}

/// The normalised form of a notification.
#[derive(Clone, Debug, PartialEq, Eq)]
pub enum CanonicalAction {
    Removed { path: String },
    Created { path: String },
    MetadataChanged { path: String },
    Renamed { from: String, to: String },
    ContentChanged { path: String },
    /// A notification that asks for nothing: a kind that the agent does not
    /// follow, or too few paths for its kind.
    Ignored,
}

/// Mathematical value of a [`CanonicalAction`].
pub enum CanonicalActionView {
    Removed { path: Seq<char> },
    Created { path: Seq<char> },
    MetadataChanged { path: Seq<char> },
    Renamed { from: Seq<char>, to: Seq<char> },
    ContentChanged { path: Seq<char> },
    Ignored,
}

impl View for CanonicalAction {
    type V = CanonicalActionView;

    open spec fn view(&self) -> CanonicalActionView {
        match self {
            CanonicalAction::Removed { path } => CanonicalActionView::Removed { path: path@ },
            CanonicalAction::Created { path } => CanonicalActionView::Created { path: path@ },
            CanonicalAction::MetadataChanged { path } => CanonicalActionView::MetadataChanged {
                path: path@,
            },
            CanonicalAction::Renamed { from, to } => CanonicalActionView::Renamed {
                from: from@,
                to: to@,
            },
            CanonicalAction::ContentChanged { path } => CanonicalActionView::ContentChanged {
                path: path@,
            },
            CanonicalAction::Ignored => CanonicalActionView::Ignored,
        }
    }
}

/// What the caller saw when it looked at the path of a notification (of a
/// rename: at nothing).
#[derive(Clone, Debug, PartialEq, Eq)]
pub enum Observation {
    /// The path does not exist.
    Absent,
    /// The path exists; nothing more was read of it.
    Exists,
    /// The path exists and these are its attributes.
    File(FileRecord),
    /// The path exists and this is its modification time.
    LastModified(u64),
    /// The path exists and this is the signature of its content.
    Signature(String),
}

/// Mathematical value of an [`Observation`].
pub enum ObservationView {
    Absent,
    Exists,
    File(FileRecordView),
    LastModified(u64),
    Signature(Seq<char>),
}

impl View for Observation {
    type V = ObservationView;

    open spec fn view(&self) -> ObservationView {
        match self {
            Observation::Absent => ObservationView::Absent,
            Observation::Exists => ObservationView::Exists,
            Observation::File(record) => ObservationView::File(record@),
            Observation::LastModified(timestamp) => ObservationView::LastModified(*timestamp),
            Observation::Signature(signature) => ObservationView::Signature(signature@),
        }
    }
}

impl ObservationView {
    /// The modification time that was seen, if one was.
    pub open spec fn last_modified(self) -> Option<u64> {
        match self {
            ObservationView::File(record) => Some(record.last_modified),
            ObservationView::LastModified(timestamp) => Some(timestamp),
            _ => None,
        }
    }

    /// The content signature that was seen, if one was.
    pub open spec fn signature(self) -> Option<Seq<char>> {
        match self {
            ObservationView::File(record) => Some(record.content_signature),
            ObservationView::Signature(signature) => Some(signature),
            _ => None,
        }
    }
}

/// What the caller is to look at on the filesystem before an action is applied.
#[derive(Clone, Copy, Debug, PartialEq, Eq, Structural)]
pub enum Probe {
    /// Nothing.
    Nothing,
    /// Whether the path exists.
    Existence,
    /// Whether the path exists and, if it does, the attributes of the file.
    Attributes,
    /// The modification time of the file.
    LastModified,
    /// The signature of the content of the file.
    Signature,
}

/// How the handling of a notification ended.
#[derive(Clone, Copy, Debug, PartialEq, Eq, Structural)]
pub enum EventOutcome {
    /// The store was changed as the notification asked.
    Applied,
    /// The notification asked for nothing.
    Ignored,
    /// The filesystem contradicts the notification: the removed file is
    /// there, or the created file is not. The store was not changed.
    Refused,
    /// What the action needs was not observed. The store was not changed.
    NotObserved,
    /// The store refused the operation. The store was not changed.
    Failed(StoreError),
}

/// The canonical action of the notification `signal`.
pub open spec fn spec_normalize(signal: RawSignalView) -> CanonicalActionView {
    let paths = signal.paths;
    if paths.len() == 0 {
        CanonicalActionView::Ignored
    } else {
        match signal.kind {
            SignalKind::Remove => CanonicalActionView::Removed { path: paths[0] },
            SignalKind::Create => CanonicalActionView::Created { path: paths[0] },
            SignalKind::Modify(ModifyKind::Metadata) => CanonicalActionView::MetadataChanged {
                path: paths[0],
            },
            SignalKind::Modify(ModifyKind::Name) => if paths.len() >= 2 {
                CanonicalActionView::Renamed { from: paths[0], to: paths[1] }
            } else {
                CanonicalActionView::Ignored
            },
            SignalKind::Modify(ModifyKind::Data) => CanonicalActionView::ContentChanged {
                path: paths[0],
            },
            _ => CanonicalActionView::Ignored,
        }
    }
}

/// What is to be looked at before `action` is applied: whether the file is
/// there for a removal, its attributes for a creation, its modification
/// time or its signature for a change, and nothing for a rename.
pub open spec fn spec_probe(action: CanonicalActionView) -> Probe {
    match action {
        CanonicalActionView::Removed { .. } => Probe::Existence,
        CanonicalActionView::Created { .. } => Probe::Attributes,
        CanonicalActionView::MetadataChanged { .. } => Probe::LastModified,
        CanonicalActionView::ContentChanged { .. } => Probe::Signature,
        CanonicalActionView::Renamed { .. } => Probe::Nothing,
        CanonicalActionView::Ignored => Probe::Nothing,
    }
}

/// The path that the observation for `action` is about, if it needs one.
pub open spec fn spec_probed_path(action: CanonicalActionView) -> Option<Seq<char>> {
    match action {
        CanonicalActionView::Removed { path } => Some(path),
        CanonicalActionView::Created { path } => Some(path),
        CanonicalActionView::MetadataChanged { path } => Some(path),
        CanonicalActionView::ContentChanged { path } => Some(path),
        CanonicalActionView::Renamed { .. } => None,
        CanonicalActionView::Ignored => None,
    }
}

/// Whether the observation `seen` tells what `probe` asks for.
pub open spec fn answers(probe: Probe, seen: ObservationView) -> bool {
    match probe {
        Probe::Nothing => true,
        Probe::Existence => true,
        Probe::Attributes => seen is Absent || seen is File,
        Probe::LastModified => seen.last_modified() is Some,
        Probe::Signature => seen.signature() is Some,
    }
}

/// The store after a rescoring of `path`; the store itself if `path` is not in it.
pub open spec fn rescored(store: StoreView, path: Seq<char>, rule_set: RuleSetView) -> StoreView {
    match spec_update_grade(store, path, rule_set) {
        Ok(after) => after,
        Err(_) => store,
    }
}

/// The outcome of a store operation that is followed by a rescoring of `path`.
pub open spec fn then_rescored(
    changed: Result<StoreView, StoreError>,
    store: StoreView,
    path: Seq<char>,
    rule_set: RuleSetView,
) -> (EventOutcome, StoreView) {
    match changed {
        Ok(after) => (EventOutcome::Applied, rescored(after, path, rule_set)),
        Err(error) => (EventOutcome::Failed(error), store),
    }
}

/// What removing `path` does when the filesystem was seen as `seen`: the
/// record leaves the store only if the file is gone.
pub open spec fn spec_safe_remove(store: StoreView, path: Seq<char>, seen: ObservationView) -> (
    EventOutcome,
    StoreView,
) {
    if seen is Absent {
        match spec_remove(store, path) {
            Ok(after) => (EventOutcome::Applied, after),
            Err(error) => (EventOutcome::Failed(error), store),
        }
    } else {
        (EventOutcome::Refused, store)
    }
}

/// What adding `path` does when the filesystem was seen as `seen`: a record
/// enters the store only if the file is there and its attributes were read.
pub open spec fn spec_safe_add(store: StoreView, path: Seq<char>, seen: ObservationView) -> (
    EventOutcome,
    StoreView,
) {
    match seen {
        ObservationView::Absent => (EventOutcome::Refused, store),
        ObservationView::File(record) => match spec_add(store, record.moved_to(path)) {
            Ok(after) => (EventOutcome::Applied, after),
            Err(error) => (EventOutcome::Failed(error), store),
        },
        _ => (EventOutcome::NotObserved, store),
    }
}

/// What `action` does to `store` when the filesystem was seen as `seen`.
pub open spec fn spec_apply(
    store: StoreView,
    action: CanonicalActionView,
    seen: ObservationView,
    rule_set: RuleSetView,
) -> (EventOutcome, StoreView) {
    match action {
        CanonicalActionView::Removed { path } => spec_safe_remove(store, path, seen),
        CanonicalActionView::Created { path } => {
            let (outcome, after) = spec_safe_add(store, path, seen);
            if outcome == EventOutcome::Applied {
                (outcome, rescored(after, path, rule_set))
            } else {
                (outcome, after)
            }
        },
        CanonicalActionView::MetadataChanged { path } => match seen.last_modified() {
            Some(timestamp) => then_rescored(
                spec_update_last_modified(store, path, timestamp),
                store,
                path,
                rule_set,
            ),
            None => (EventOutcome::NotObserved, store),
        },
        CanonicalActionView::Renamed { from, to } => then_rescored(
            spec_update_path(store, from, to),
            store,
            to,
            rule_set,
        ),
        CanonicalActionView::ContentChanged { path } => match seen.signature() {
            Some(signature) => then_rescored(
                spec_update_signature(store, path, signature),
                store,
                path,
                rule_set,
            ),
            None => (EventOutcome::NotObserved, store),
        },
        CanonicalActionView::Ignored => (EventOutcome::Ignored, store),
    }
}

/// What a notification does to `store` when the filesystem was seen as `seen`.
pub open spec fn spec_handle(
    store: StoreView,
    signal: RawSignalView,
    seen: ObservationView,
    rule_set: RuleSetView,
) -> (EventOutcome, StoreView) {
    spec_apply(store, spec_normalize(signal), seen, rule_set)
}

/// Maps a raw notification to its canonical action. A removal, a creation, a
/// change of metadata and a change of content are about the first path; a
/// change of name is about the first two. Every other kind, and a
/// notification with too few paths, is ignored.
pub fn normalize(signal: &RawSignal) -> (action: CanonicalAction)
    ensures
        action@ == spec_normalize(signal@),
{
    if signal.paths.len() == 0 {
        return CanonicalAction::Ignored;
    }
    assert(signal@.paths[0] == signal.paths@[0]@);
    match signal.kind {
        SignalKind::Remove => CanonicalAction::Removed { path: signal.paths[0].clone() },
        SignalKind::Create => CanonicalAction::Created { path: signal.paths[0].clone() },
        SignalKind::Modify(ModifyKind::Metadata) => CanonicalAction::MetadataChanged {
            path: signal.paths[0].clone(),
        },
        SignalKind::Modify(ModifyKind::Name) => {
            if signal.paths.len() >= 2 {
                assert(signal@.paths[1] == signal.paths@[1]@);
                CanonicalAction::Renamed {
                    from: signal.paths[0].clone(),
                    to: signal.paths[1].clone(),
                }
            } else {
                CanonicalAction::Ignored
            }
        },
        SignalKind::Modify(ModifyKind::Data) => CanonicalAction::ContentChanged {
            path: signal.paths[0].clone(),
        },
        _ => CanonicalAction::Ignored,
    }
}

impl CanonicalAction {
    /// What the caller is to look at on the filesystem before the action is applied.
    pub fn probe(&self) -> (probe: Probe)
        ensures
            probe == spec_probe(self@),
    {
        match self {
            CanonicalAction::Removed { .. } => Probe::Existence,
            CanonicalAction::Created { .. } => Probe::Attributes,
            CanonicalAction::MetadataChanged { .. } => Probe::LastModified,
            CanonicalAction::ContentChanged { .. } => Probe::Signature,
            CanonicalAction::Renamed { .. } => Probe::Nothing,
            CanonicalAction::Ignored => Probe::Nothing,
        }
    }

    /// The path that the caller is to look at, if the action needs an observation.
    pub fn probed_path(&self) -> (path: Option<&String>)
        ensures
            match path {
                Some(path) => spec_probed_path(self@) == Some(path@),
                None => spec_probed_path(self@) is None,
            },
    {
        match self {
            CanonicalAction::Removed { path } => Some(path),
            CanonicalAction::Created { path } => Some(path),
            CanonicalAction::MetadataChanged { path } => Some(path),
            CanonicalAction::ContentChanged { path } => Some(path),
            CanonicalAction::Renamed { .. } => None,
            CanonicalAction::Ignored => None,
        }
    }
}

/// Rescoring after a change: the store operation has run with `result`; if
/// it succeeded, `path` is scored anew.
fn rescore_after(
    result: Result<(), StoreError>,
    path: &str,
    my_files: &mut MyFiles,
    tidy_algo: &RuleSet,
    Ghost(before): Ghost<StoreView>,
    Ghost(changed): Ghost<Result<StoreView, StoreError>>,
) -> (outcome: EventOutcome)
    requires
        old(my_files).wf(),
        follows(changed, before, result, old(my_files)@),
        changed matches Ok(after) ==> after.dom().contains(path@),
    ensures
        final(my_files).wf(),
        (outcome, final(my_files)@) == then_rescored(changed, before, path@, tidy_algo@),
        final(my_files).db_path() == old(my_files).db_path(),
        final(my_files).drop_db_on_start() == old(my_files).drop_db_on_start(),
{
    match result {
        Ok(()) => {
            let _ = my_files.update_grade(path, tidy_algo);
            EventOutcome::Applied
        },
        Err(error) => EventOutcome::Failed(error),
    }
}

/// Stops tracking `path`, unless the file is still there: a removal is
/// refused for every observation but `Absent`.
pub fn safe_remove_file_from_db(path: &str, seen: &Observation, my_files: &mut MyFiles) -> (outcome:
    EventOutcome)
    requires
        old(my_files).wf(),
    ensures
        final(my_files).wf(),
        (outcome, final(my_files)@) == spec_safe_remove(old(my_files)@, path@, seen@),
        final(my_files).db_path() == old(my_files).db_path(),
        final(my_files).drop_db_on_start() == old(my_files).drop_db_on_start(),
{
    match seen {
        Observation::Absent => match my_files.remove(path) {
            Ok(()) => EventOutcome::Applied,
            Err(error) => EventOutcome::Failed(error),
        },
        _ => EventOutcome::Refused,
    }
}

/// Starts tracking `path` with the attributes that were seen, unless the
/// file is not there: an addition is refused for the observation `Absent`,
/// and needs the observation `File`.
pub fn safe_add_file_to_db(path: &str, seen: Observation, my_files: &mut MyFiles) -> (outcome:
    EventOutcome)
    requires
        old(my_files).wf(),
    ensures
        final(my_files).wf(),
        (outcome, final(my_files)@) == spec_safe_add(old(my_files)@, path@, seen@),
        final(my_files).db_path() == old(my_files).db_path(),
        final(my_files).drop_db_on_start() == old(my_files).drop_db_on_start(),
{
    match seen {
        Observation::Absent => EventOutcome::Refused,
        Observation::File(record) => {
            let entry = FileRecord {
                path: path.to_owned(),
                size: record.size,
                content_signature: record.content_signature,
                last_modified: record.last_modified,
                tidy_score: record.tidy_score,
            };
            match my_files.add(entry) {
                Ok(()) => EventOutcome::Applied,
                Err(error) => EventOutcome::Failed(error),
            }
        },
        _ => EventOutcome::NotObserved,
    }
}

/// Applies a canonical action to the store if the observation `seen` bears
/// it out, and rescores the path whose attributes changed. A failure is
/// reported in the outcome and leaves the store as it was.
pub fn apply_action(
    action: CanonicalAction,
    seen: Observation,
    my_files: &mut MyFiles,
    tidy_algo: &RuleSet,
) -> (outcome: EventOutcome)
    requires
        old(my_files).wf(),
    ensures
        final(my_files).wf(),
        (outcome, final(my_files)@) == spec_apply(old(my_files)@, action@, seen@, tidy_algo@),
        final(my_files).db_path() == old(my_files).db_path(),
        final(my_files).drop_db_on_start() == old(my_files).drop_db_on_start(),
{
    let ghost before = my_files@;
    match action {
        CanonicalAction::Removed { path } => safe_remove_file_from_db(
            path.as_str(),
            &seen,
            my_files,
        ),
        CanonicalAction::Created { path } => {
            let outcome = safe_add_file_to_db(path.as_str(), seen, my_files);
            if outcome == EventOutcome::Applied {
                let _ = my_files.update_grade(path.as_str(), tidy_algo);
            }
            outcome
        },
        CanonicalAction::MetadataChanged { path } => {
            let timestamp: Option<u64> = match &seen {
                Observation::File(record) => Some(record.last_modified),
                Observation::LastModified(timestamp) => Some(*timestamp),
                _ => None,
            };
            match timestamp {
                Some(timestamp) => {
                    let result = my_files.update_last_modified(path.as_str(), timestamp);
                    rescore_after(
                        result,
                        path.as_str(),
                        my_files,
                        tidy_algo,
                        Ghost(before),
                        Ghost(spec_update_last_modified(before, path@, timestamp)),
                    )
                },
                None => EventOutcome::NotObserved,
            }
        },
        CanonicalAction::Renamed { from, to } => {
            let result = my_files.update_path(from.as_str(), to.as_str());
            rescore_after(
                result,
                to.as_str(),
                my_files,
                tidy_algo,
                Ghost(before),
                Ghost(spec_update_path(before, from@, to@)),
            )
        },
        CanonicalAction::ContentChanged { path } => {
            let signature: Option<String> = match seen {
                Observation::File(record) => Some(record.content_signature),
                Observation::Signature(signature) => Some(signature),
                _ => None,
            };
            match signature {
                Some(signature) => {
                    let ghost wanted = signature@;
                    let result = my_files.update_signature(path.as_str(), signature);
                    rescore_after(
                        result,
                        path.as_str(),
                        my_files,
                        tidy_algo,
                        Ghost(before),
                        Ghost(spec_update_signature(before, path@, wanted)),
                    )
                },
                None => EventOutcome::NotObserved,
            }
        },
        CanonicalAction::Ignored => EventOutcome::Ignored,
    }
}

/// Handles one notification: normalises it, applies its action to the store
/// if the observation `seen` bears it out, and rescores the path whose
/// attributes changed. A failure is reported in the outcome and leaves the
/// store as it was, so the next notification can be handled as if nothing
/// had happened.
pub fn handle_file_events(
    event: &RawSignal,
    seen: Observation,
    my_files: &mut MyFiles,
    tidy_algo: &RuleSet,
) -> (outcome: EventOutcome)
    requires
        old(my_files).wf(),
    ensures
        final(my_files).wf(),
        (outcome, final(my_files)@) == spec_handle(old(my_files)@, event@, seen@, tidy_algo@),
        final(my_files).db_path() == old(my_files).db_path(),
        final(my_files).drop_db_on_start() == old(my_files).drop_db_on_start(),
{
    apply_action(normalize(event), seen, my_files, tidy_algo)
}

/// What to do with a discovered file whose path is tracked already.
#[derive(Clone, Copy, Debug, PartialEq, Eq, Structural)]
pub enum DuplicatePolicy {
    /// Leave the record as it is and report `DuplicateKey`.
    Report,
    /// Put the discovered attributes in the place of the record.
    Replace,
}

/// What the startup enumeration does with one discovered file. A file whose
/// path is not tracked enters the store and is scored. A file whose path is
/// tracked is reported and changes nothing, or takes the place of the
/// record and is scored, as `policy` says.
pub open spec fn spec_ingest(
    store: StoreView,
    file: FileRecordView,
    rule_set: RuleSetView,
    policy: DuplicatePolicy,
) -> (EventOutcome, StoreView) {
    match spec_add(store, file) {
        Ok(after) => (EventOutcome::Applied, rescored(after, file.path, rule_set)),
        Err(error) => match policy {
            DuplicatePolicy::Report => (EventOutcome::Failed(error), store),
            DuplicatePolicy::Replace => (
                EventOutcome::Applied,
                rescored(store.insert(file.path, file.unscored()), file.path, rule_set),
            ),
        },
    }
}

/// What the startup enumeration does with the discovered `files`, taken in order.
pub open spec fn spec_list_directories(
    store: StoreView,
    files: Seq<FileRecordView>,
    rule_set: RuleSetView,
    policy: DuplicatePolicy,
) -> (Seq<EventOutcome>, StoreView)
    decreases files.len(),
{
    if files.len() == 0 {
        (Seq::empty(), store)
    } else {
        let (outcomes, so_far) = spec_list_directories(
            store,
            files.drop_last(),
            rule_set,
            policy,
        );
        let (outcome, after) = spec_ingest(so_far, files.last(), rule_set, policy);
        (outcomes.push(outcome), after)
    }
}

/// Feeds one discovered file into the store and scores it. What happens to
/// a file whose path is tracked already is for `policy` to say.
pub fn ingest(
    file: FileRecord,
    my_files: &mut MyFiles,
    tidy_algo: &RuleSet,
    policy: DuplicatePolicy,
) -> (outcome: EventOutcome)
    requires
        old(my_files).wf(),
    ensures
        final(my_files).wf(),
        (outcome, final(my_files)@) == spec_ingest(old(my_files)@, file@, tidy_algo@, policy),
        final(my_files).db_path() == old(my_files).db_path(),
        final(my_files).drop_db_on_start() == old(my_files).drop_db_on_start(),
{
    let ghost before = my_files@;
    let path = file.path.clone();
    let replace = match policy {
        DuplicatePolicy::Replace => my_files.contains(path.as_str()),
        DuplicatePolicy::Report => false,
    };
    if replace {
        let _ = my_files.remove(path.as_str());
        let _ = my_files.add(file);
        assert(my_files@ =~= before.insert(file@.path, file@.unscored()));
        let _ = my_files.update_grade(path.as_str(), tidy_algo);
        EventOutcome::Applied
    } else {
        let result = my_files.add(file);
        rescore_after(
            result,
            path.as_str(),
            my_files,
            tidy_algo,
            Ghost(before),
            Ghost(spec_add(before, file@)),
        )
    }
}

/// Feeds the files that the startup enumeration discovered into the store,
/// in order, each as `ingest` does. The result holds one outcome for each file.
pub fn list_directories(
    files: &Vec<FileRecord>,
    my_files: &mut MyFiles,
    tidy_algo: &RuleSet,
    policy: DuplicatePolicy,
) -> (outcomes: Vec<EventOutcome>)
    requires
        old(my_files).wf(),
    ensures
        final(my_files).wf(),
        (outcomes@, final(my_files)@) == spec_list_directories(
            old(my_files)@,
            record_views(files@),
            tidy_algo@,
            policy,
        ),
        final(my_files).db_path() == old(my_files).db_path(),
        final(my_files).drop_db_on_start() == old(my_files).drop_db_on_start(),
{
    let ghost all = record_views(files@);
    let ghost start = my_files@;
    let mut outcomes: Vec<EventOutcome> = Vec::new();
    let mut at: usize = 0;
    while at < files.len()
        invariant
            at <= files.len(),
            all == record_views(files@),
            my_files.wf(),
            (outcomes@, my_files@) == spec_list_directories(
                start,
                all.take(at as int),
                tidy_algo@,
                policy,
            ),
            my_files.db_path() == old(my_files).db_path(),
            my_files.drop_db_on_start() == old(my_files).drop_db_on_start(),
        decreases files.len() - at,
    {
        let file = files[at].duplicate();
        proof {
            assert(all.take(at + 1).drop_last() =~= all.take(at as int));
            assert(all.take(at + 1).last() == file@);
        }
        let outcome = ingest(file, my_files, tidy_algo, policy);
        outcomes.push(outcome);
        at = at + 1;
    }
    assert(all.take(at as int) =~= all);
    outcomes
}

/// Scores every tracked file anew under `tidy_algo`. The same paths are
/// tracked afterwards, and each record differs from what it was in its
/// score alone, which is the score of its attributes.
pub fn update_all_grades(my_files: &mut MyFiles, tidy_algo: &RuleSet)
    requires
        old(my_files).wf(),
    ensures
        final(my_files).wf(),
        final(my_files)@.dom() == old(my_files)@.dom(),
        forall|path: Seq<char>|
            old(my_files)@.dom().contains(path) ==> #[trigger] final(my_files)@[path] == old(
                my_files,
            )@[path].scored(grade_of(old(my_files)@[path], tidy_algo@)),
        final(my_files).db_path() == old(my_files).db_path(),
        final(my_files).drop_db_on_start() == old(my_files).drop_db_on_start(),
{
    let files = my_files.list_all();
    let ghost listing = record_views(files@);
    let ghost before = my_files@;
    proof {
        lemma_map_of_distinct(listing);
    }
    let mut at: usize = 0;
    while at < files.len()
        invariant
            at <= files.len(),
            listing == record_views(files@),
            distinct_paths(listing),
            map_of(listing) == before,
            my_files.wf(),
            my_files@.dom() == before.dom(),
            forall|k: int|
                0 <= k < at ==> my_files@[(#[trigger] listing[k]).path] == listing[k].scored(
                    grade_of(listing[k], tidy_algo@),
                ),
            forall|k: int|
                at <= k < listing.len() ==> my_files@[(#[trigger] listing[k]).path] == listing[k],
            my_files.db_path() == old(my_files).db_path(),
            my_files.drop_db_on_start() == old(my_files).drop_db_on_start(),
        decreases files.len() - at,
    {
        let ghost current = my_files@;
        proof {
            lemma_map_of_distinct(listing);
            assert(listing[at as int] == files@[at as int]@);
            assert(before.dom().contains(listing[at as int].path));
        }
        let _ = my_files.update_grade(files[at].path.as_str(), tidy_algo);
        proof {
            let path = listing[at as int].path;
            assert(my_files@ == current.insert(
                path,
                current[path].scored(grade_of(current[path], tidy_algo@)),
            ));
            assert(my_files@.dom() =~= before.dom());
            assert forall|k: int| 0 <= k < at + 1 implies my_files@[(
            #[trigger] listing[k]).path] == listing[k].scored(
                grade_of(listing[k], tidy_algo@),
            ) by {
                if k < at {
                    assert(listing[k].path != listing[at as int].path);
                }
            }
            assert forall|k: int| at + 1 <= k < listing.len() implies my_files@[(
            #[trigger] listing[k]).path] == listing[k] by {
                assert(listing[at as int].path != listing[k].path);
            }
        }
        at = at + 1;
    }
    proof {
        lemma_map_of_distinct(listing);
        assert forall|path: Seq<char>| before.dom().contains(path) implies #[trigger] my_files@[path]
            == before[path].scored(grade_of(before[path], tidy_algo@)) by {
            let k = choose|k: int| listed_at(listing, path, k);
            assert(listed_at(listing, path, k));
            assert(before[listing[k].path] == listing[k]);
        }
    }
}

/// A rename of a tracked file to an untracked path takes the record away
/// from the old path and puts it under the new one, with the same size,
/// signature and modification time and with the score of its new
/// attributes. No other record changes.
pub proof fn lemma_rename_moves_and_rescores(
    store: StoreView,
    signal: RawSignalView,
    seen: ObservationView,
    rule_set: RuleSetView,
)
    requires
        signal.kind == SignalKind::Modify(ModifyKind::Name),
        signal.paths.len() >= 2,
        store.dom().contains(signal.paths[0]),
        !store.dom().contains(signal.paths[1]),
    ensures
        ({
            let from = signal.paths[0];
            let to = signal.paths[1];
            let (outcome, after) = spec_handle(store, signal, seen, rule_set);
            let moved = store[from].moved_to(to);
            &&& outcome == EventOutcome::Applied
            &&& !after.dom().contains(from)
            &&& after.dom().contains(to)
            &&& after[to] == moved.scored(grade_of(moved, rule_set))
            &&& after[to].size == store[from].size
            &&& after[to].content_signature == store[from].content_signature
            &&& after[to].last_modified == store[from].last_modified
            &&& forall|path: Seq<char>|
                path != from && path != to ==> after.dom().contains(path) == store.dom().contains(
                    path,
                ) && after[path] == store[path]
        }),
{
}

/// A change of content of a tracked file puts the signature that was seen
/// in its record and scores the record anew. Its path, size and
/// modification time stay, and no other record changes.
pub proof fn lemma_content_change_touches_signature_only(
    store: StoreView,
    signal: RawSignalView,
    seen: ObservationView,
    rule_set: RuleSetView,
)
    requires
        signal.kind == SignalKind::Modify(ModifyKind::Data),
        signal.paths.len() >= 1,
        store.dom().contains(signal.paths[0]),
        seen.signature() is Some,
    ensures
        ({
            let path = signal.paths[0];
            let (outcome, after) = spec_handle(store, signal, seen, rule_set);
            &&& outcome == EventOutcome::Applied
            &&& after.dom() == store.dom()
            &&& after[path].content_signature == seen.signature()->0
            &&& after[path].tidy_score == Some(grade_of(store[path], rule_set))
            &&& after[path].path == store[path].path
            &&& after[path].size == store[path].size
            &&& after[path].last_modified == store[path].last_modified
            &&& forall|other: Seq<char>| other != path ==> after[other] == store[other]
        }),
{
    let path = signal.paths[0];
    let (outcome, after) = spec_handle(store, signal, seen, rule_set);
    assert(after.dom() =~= store.dom());
}

/// An action whose probe was answered is never left undone for want of an
/// observation: it is applied, refused, or fails in the store.
pub proof fn lemma_answered_probe_suffices(
    store: StoreView,
    action: CanonicalActionView,
    seen: ObservationView,
    rule_set: RuleSetView,
)
    requires
        answers(spec_probe(action), seen),
    ensures
        spec_apply(store, action, seen, rule_set).0 != EventOutcome::NotObserved,
{
}

/// No record appears from nowhere and none outlives its removal. A path
/// enters the store only through a creation whose file was seen, or as the
/// destination of a rename. A removal whose file was seen absent leaves the
/// path untracked. A notification changes no record but those of its paths.
pub proof fn lemma_records_follow_events(
    store: StoreView,
    signal: RawSignalView,
    seen: ObservationView,
    rule_set: RuleSetView,
)
    ensures
        ({
            let action = spec_normalize(signal);
            let after = spec_handle(store, signal, seen, rule_set).1;
            &&& forall|path: Seq<char>|
                #![trigger after.dom().contains(path)]
                after.dom().contains(path) && !store.dom().contains(path) ==> {
                    ||| action == (CanonicalActionView::Created { path }) && seen is File
                    ||| action matches CanonicalActionView::Renamed { from, to } && to == path
                        && store.dom().contains(from)
                }
            &&& forall|path: Seq<char>|
                action == (CanonicalActionView::Removed { path }) && seen is Absent
                    ==> !#[trigger] after.dom().contains(path)
            &&& forall|path: Seq<char>|
                #![trigger after[path]]
                (signal.paths.len() < 1 || path != signal.paths[0]) && (signal.paths.len() < 2
                    || path != signal.paths[1]) ==> after.dom().contains(path)
                    == store.dom().contains(path) && after[path] == store[path]
        }),
{
}

} // verus!
