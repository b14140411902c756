use tidy_agent::configuration::MyFilesConfiguration;
use tidy_agent::events::{
    apply_action, handle_file_events, ingest, list_directories, normalize, safe_add_file_to_db,
    safe_remove_file_from_db, update_all_grades, CanonicalAction, DuplicatePolicy, EventOutcome,
    ModifyKind, Observation, Probe, RawSignal, SignalKind,
};
use tidy_agent::file_info::FileRecord;
use tidy_agent::my_files::{ConnectionManager, MyFiles, MyFilesBuilder, StoreError};
use tidy_agent::tidy_algo::RuleSet;
use tidy_agent::tidy_rules::Rule;

fn store_with(stored: Vec<FileRecord>) -> MyFiles {
    MyFilesBuilder::new()
        .configure(MyFilesConfiguration { db_path: "db".to_string(), drop_db_on_start: false })
        .connection_manager(ConnectionManager::new(stored))
        .seal()
        .build()
        .unwrap()
}

fn seen_file(path: &str, size: u64, signature: &str, last_modified: u64) -> FileRecord {
    FileRecord::new(path.to_string(), size, signature.to_string(), last_modified)
}

fn signal(kind: SignalKind, paths: &[&str]) -> RawSignal {
    RawSignal { kind, paths: paths.iter().map(|path| path.to_string()).collect() }
}

/// Extension `tmp` earns 5; two separators or more earn 1; untouched for 100 seconds earns 2.
fn policy() -> RuleSet {
    RuleSet::from_rules(
        vec![
            Rule::Extension { extension: "tmp".to_string(), weight: 5 },
            Rule::MinDepth { depth: 2, weight: 1 },
            Rule::OlderThan { seconds: 100, weight: 2 },
        ],
        1_000,
    )
}

fn snapshot(store: &MyFiles) -> Vec<FileRecord> {
    let mut listing = store.list_all();
    listing.sort_by(|left, right| left.path.cmp(&right.path));
    listing
}

#[test]
fn notifications_map_to_canonical_actions() {
    let path = || "/a".to_string();
    assert_eq!(
        normalize(&signal(SignalKind::Remove, &["/a"])),
        CanonicalAction::Removed { path: path() }
    );
    assert_eq!(
        normalize(&signal(SignalKind::Create, &["/a"])),
        CanonicalAction::Created { path: path() }
    );
    assert_eq!(
        normalize(&signal(SignalKind::Modify(ModifyKind::Metadata), &["/a"])),
        CanonicalAction::MetadataChanged { path: path() }
    );
    assert_eq!(
        normalize(&signal(SignalKind::Modify(ModifyKind::Name), &["/a", "/b"])),
        CanonicalAction::Renamed { from: path(), to: "/b".to_string() }
    );
    assert_eq!(
        normalize(&signal(SignalKind::Modify(ModifyKind::Data), &["/a"])),
        CanonicalAction::ContentChanged { path: path() }
    );
}

#[test]
fn notifications_that_ask_for_nothing_are_ignored() {
    for kind in [
        SignalKind::Any,
        SignalKind::Access,
        SignalKind::Other,
        SignalKind::Modify(ModifyKind::Any),
        SignalKind::Modify(ModifyKind::Other),
    ] {
        assert_eq!(normalize(&signal(kind, &["/a", "/b"])), CanonicalAction::Ignored);
    }
    // Too few paths for the kind.
    for kind in [
        SignalKind::Remove,
        SignalKind::Create,
        SignalKind::Modify(ModifyKind::Data),
        SignalKind::Modify(ModifyKind::Metadata),
        SignalKind::Modify(ModifyKind::Name),
    ] {
        assert_eq!(normalize(&signal(kind, &[])), CanonicalAction::Ignored);
    }
    assert_eq!(
        normalize(&signal(SignalKind::Modify(ModifyKind::Name), &["/a"])),
        CanonicalAction::Ignored
    );
    // More paths than the kind needs: the first ones count.
    assert_eq!(
        normalize(&signal(SignalKind::Remove, &["/a", "/b", "/c"])),
        CanonicalAction::Removed { path: "/a".to_string() }
    );
}

#[test]
fn ignored_notification_leaves_the_store_alone() {
    let mut store = store_with(vec![seen_file("/a", 1, "s", 1)]);
    let before = snapshot(&store);
    let outcome = handle_file_events(
        &signal(SignalKind::Access, &["/a"]),
        Observation::Absent,
        &mut store,
        &policy(),
    );
    assert_eq!(outcome, EventOutcome::Ignored);
    assert_eq!(snapshot(&store), before);
}

#[test]
fn created_file_is_added_and_scored() {
    let mut store = store_with(Vec::new());
    let outcome = handle_file_events(
        &signal(SignalKind::Create, &["/d/e/new.tmp"]),
        Observation::File(seen_file("/d/e/new.tmp", 12, "abc", 950)),
        &mut store,
        &policy(),
    );
    assert_eq!(outcome, EventOutcome::Applied);
    // .tmp (5) and three separators (1); only 50 seconds old.
    assert_eq!(
        store.get("/d/e/new.tmp"),
        Some(FileRecord { tidy_score: Some(6), ..seen_file("/d/e/new.tmp", 12, "abc", 950) })
    );
}

#[test]
fn created_record_is_keyed_by_the_path_of_the_notification() {
    let mut store = store_with(Vec::new());
    let outcome = handle_file_events(
        &signal(SignalKind::Create, &["/real"]),
        Observation::File(seen_file("/elsewhere", 1, "s", 0)),
        &mut store,
        &policy(),
    );
    assert_eq!(outcome, EventOutcome::Applied);
    assert!(store.contains("/real"));
    assert!(!store.contains("/elsewhere"));
    assert_eq!(store.get("/real").unwrap().path, "/real");
}

#[test]
fn creation_of_a_missing_file_is_refused() {
    let mut store = store_with(Vec::new());
    let outcome = handle_file_events(
        &signal(SignalKind::Create, &["/ghost"]),
        Observation::Absent,
        &mut store,
        &policy(),
    );
    assert_eq!(outcome, EventOutcome::Refused);
    assert_eq!(store.len(), 0);
}

#[test]
fn creation_without_attributes_adds_nothing() {
    for seen in [
        Observation::Exists,
        Observation::LastModified(5),
        Observation::Signature("s".to_string()),
    ] {
        let mut store = store_with(Vec::new());
        let outcome =
            handle_file_events(&signal(SignalKind::Create, &["/a"]), seen, &mut store, &policy());
        assert_eq!(outcome, EventOutcome::NotObserved);
        assert_eq!(store.len(), 0);
    }
}

#[test]
fn repeated_creation_reports_duplicate_and_changes_nothing() {
    let kept = FileRecord { tidy_score: Some(3), ..seen_file("/a", 1, "old", 10) };
    let mut store = store_with(vec![kept.clone()]);
    let outcome = handle_file_events(
        &signal(SignalKind::Create, &["/a"]),
        Observation::File(seen_file("/a", 2, "new", 20)),
        &mut store,
        &policy(),
    );
    assert_eq!(outcome, EventOutcome::Failed(StoreError::DuplicateKey));
    assert_eq!(store.list_all(), vec![kept]);
}

#[test]
fn removal_of_a_vanished_file_removes_the_record() {
    let mut store = store_with(vec![seen_file("/a", 1, "s", 1), seen_file("/b", 1, "s", 1)]);
    let outcome = handle_file_events(
        &signal(SignalKind::Remove, &["/a"]),
        Observation::Absent,
        &mut store,
        &policy(),
    );
    assert_eq!(outcome, EventOutcome::Applied);
    assert_eq!(snapshot(&store), vec![seen_file("/b", 1, "s", 1)]);
}

#[test]
fn removal_of_a_file_that_still_exists_is_refused() {
    for seen in [
        Observation::Exists,
        Observation::File(seen_file("/a", 1, "s", 1)),
        Observation::LastModified(1),
        Observation::Signature("s".to_string()),
    ] {
        let mut store = store_with(vec![seen_file("/a", 1, "s", 1)]);
        let outcome =
            handle_file_events(&signal(SignalKind::Remove, &["/a"]), seen, &mut store, &policy());
        assert_eq!(outcome, EventOutcome::Refused);
        assert!(store.contains("/a"));
    }
}

#[test]
fn repeated_removal_reports_not_found() {
    let mut store = store_with(vec![seen_file("/a", 1, "s", 1)]);
    let remove = signal(SignalKind::Remove, &["/a"]);
    assert_eq!(
        handle_file_events(&remove, Observation::Absent, &mut store, &policy()),
        EventOutcome::Applied
    );
    assert_eq!(
        handle_file_events(&remove, Observation::Absent, &mut store, &policy()),
        EventOutcome::Failed(StoreError::NotFound)
    );
    assert_eq!(store.len(), 0);
}

#[test]
fn rename_moves_the_record_and_rescores_under_the_new_path() {
    let watched = FileRecord { tidy_score: Some(0), ..seen_file("/a.txt", 40, "sig", 990) };
    let bystander = FileRecord { tidy_score: Some(1), ..seen_file("/x/y", 1, "s", 990) };
    let mut store = store_with(vec![watched, bystander.clone()]);
    let outcome = handle_file_events(
        &signal(SignalKind::Modify(ModifyKind::Name), &["/a.txt", "/deep/er/a.tmp"]),
        Observation::Absent,
        &mut store,
        &policy(),
    );
    assert_eq!(outcome, EventOutcome::Applied);
    assert_eq!(store.get("/a.txt"), None);
    // Same size, signature and time; the new path earns .tmp (5) and depth (1).
    assert_eq!(
        store.get("/deep/er/a.tmp"),
        Some(FileRecord { tidy_score: Some(6), ..seen_file("/deep/er/a.tmp", 40, "sig", 990) })
    );
    assert_eq!(store.get("/x/y"), Some(bystander));
    assert_eq!(store.len(), 2);
}

#[test]
fn rename_of_an_untracked_file_reports_not_found() {
    let mut store = store_with(vec![seen_file("/b", 1, "s", 1)]);
    let before = snapshot(&store);
    let outcome = handle_file_events(
        &signal(SignalKind::Modify(ModifyKind::Name), &["/a", "/c"]),
        Observation::Exists,
        &mut store,
        &policy(),
    );
    assert_eq!(outcome, EventOutcome::Failed(StoreError::NotFound));
    assert_eq!(snapshot(&store), before);
}

#[test]
fn rename_onto_a_tracked_path_reports_duplicate() {
    let mut store = store_with(vec![seen_file("/a", 1, "s", 1), seen_file("/b", 2, "t", 2)]);
    let before = snapshot(&store);
    let outcome = handle_file_events(
        &signal(SignalKind::Modify(ModifyKind::Name), &["/a", "/b"]),
        Observation::Absent,
        &mut store,
        &policy(),
    );
    assert_eq!(outcome, EventOutcome::Failed(StoreError::DuplicateKey));
    assert_eq!(snapshot(&store), before);
}

#[test]
fn content_change_updates_the_signature_only_and_rescores() {
    let watched = seen_file("/d/e/f.tmp", 40, "old", 100);
    let bystander = seen_file("/other", 1, "s", 1);
    let mut store = store_with(vec![watched, bystander.clone()]);
    let outcome = handle_file_events(
        &signal(SignalKind::Modify(ModifyKind::Data), &["/d/e/f.tmp"]),
        Observation::Signature("new".to_string()),
        &mut store,
        &policy(),
    );
    assert_eq!(outcome, EventOutcome::Applied);
    // Path, size and time are as before; .tmp (5), depth (1), age 900 (2).
    assert_eq!(
        store.get("/d/e/f.tmp"),
        Some(FileRecord { tidy_score: Some(8), ..seen_file("/d/e/f.tmp", 40, "new", 100) })
    );
    assert_eq!(store.get("/other"), Some(bystander));
}

#[test]
fn content_change_takes_only_the_signature_from_a_full_observation() {
    let mut store = store_with(vec![seen_file("/a", 40, "old", 100)]);
    let outcome = handle_file_events(
        &signal(SignalKind::Modify(ModifyKind::Data), &["/a"]),
        Observation::File(seen_file("/zzz", 9_999, "new", 777)),
        &mut store,
        &policy(),
    );
    assert_eq!(outcome, EventOutcome::Applied);
    assert_eq!(
        store.get("/a"),
        Some(FileRecord { tidy_score: Some(2), ..seen_file("/a", 40, "new", 100) })
    );
}

#[test]
fn content_change_of_untracked_or_unobserved_file_changes_nothing() {
    let mut store = store_with(vec![seen_file("/a", 1, "s", 1)]);
    let before = snapshot(&store);
    assert_eq!(
        handle_file_events(
            &signal(SignalKind::Modify(ModifyKind::Data), &["/b"]),
            Observation::Signature("n".to_string()),
            &mut store,
            &policy(),
        ),
        EventOutcome::Failed(StoreError::NotFound)
    );
    for seen in [Observation::Absent, Observation::Exists, Observation::LastModified(3)] {
        assert_eq!(
            handle_file_events(
                &signal(SignalKind::Modify(ModifyKind::Data), &["/a"]),
                seen,
                &mut store,
                &policy(),
            ),
            EventOutcome::NotObserved
        );
    }
    assert_eq!(snapshot(&store), before);
}

#[test]
fn metadata_change_updates_the_time_and_rescores() {
    let mut store = store_with(vec![FileRecord {
        tidy_score: Some(2),
        ..seen_file("/a", 1, "s", 100)
    }]);
    let outcome = handle_file_events(
        &signal(SignalKind::Modify(ModifyKind::Metadata), &["/a"]),
        Observation::LastModified(999),
        &mut store,
        &policy(),
    );
    assert_eq!(outcome, EventOutcome::Applied);
    // One second old now: the age rule no longer holds.
    assert_eq!(
        store.get("/a"),
        Some(FileRecord { tidy_score: Some(0), ..seen_file("/a", 1, "s", 999) })
    );
}

#[test]
fn metadata_change_without_a_time_changes_nothing() {
    let mut store = store_with(vec![seen_file("/a", 1, "s", 100)]);
    for seen in [
        Observation::Absent,
        Observation::Exists,
        Observation::Signature("x".to_string()),
    ] {
        assert_eq!(
            handle_file_events(
                &signal(SignalKind::Modify(ModifyKind::Metadata), &["/a"]),
                seen,
                &mut store,
                &policy(),
            ),
            EventOutcome::NotObserved
        );
    }
    assert_eq!(store.list_all(), vec![seen_file("/a", 1, "s", 100)]);
    assert_eq!(
        handle_file_events(
            &signal(SignalKind::Modify(ModifyKind::Metadata), &["/nope"]),
            Observation::LastModified(1),
            &mut store,
            &policy(),
        ),
        EventOutcome::Failed(StoreError::NotFound)
    );
}

#[test]
fn a_failed_event_does_not_stop_the_next_one() {
    let mut store = store_with(Vec::new());
    let rules = policy();
    let outcomes = vec![
        handle_file_events(
            &signal(SignalKind::Remove, &["/a"]),
            Observation::Absent,
            &mut store,
            &rules,
        ),
        handle_file_events(
            &signal(SignalKind::Modify(ModifyKind::Name), &["/a", "/b"]),
            Observation::Absent,
            &mut store,
            &rules,
        ),
        handle_file_events(
            &signal(SignalKind::Create, &["/a"]),
            Observation::File(seen_file("/a", 1, "s", 1)),
            &mut store,
            &rules,
        ),
    ];
    assert_eq!(
        outcomes,
        vec![
            EventOutcome::Failed(StoreError::NotFound),
            EventOutcome::Failed(StoreError::NotFound),
            EventOutcome::Applied,
        ]
    );
    assert!(store.contains("/a"));
}

#[test]
fn safe_remove_and_safe_add_follow_the_observation() {
    let mut store = store_with(Vec::new());
    assert_eq!(
        safe_add_file_to_db("/a", Observation::Absent, &mut store),
        EventOutcome::Refused
    );
    assert_eq!(
        safe_add_file_to_db("/a", Observation::Exists, &mut store),
        EventOutcome::NotObserved
    );
    assert_eq!(
        safe_add_file_to_db("/a", Observation::File(seen_file("/a", 3, "s", 4)), &mut store),
        EventOutcome::Applied
    );
    // Adding alone does not score.
    assert_eq!(store.get("/a"), Some(seen_file("/a", 3, "s", 4)));
    assert_eq!(
        safe_remove_file_from_db("/a", &Observation::Exists, &mut store),
        EventOutcome::Refused
    );
    assert_eq!(
        safe_remove_file_from_db("/a", &Observation::Absent, &mut store),
        EventOutcome::Applied
    );
    assert_eq!(
        safe_remove_file_from_db("/a", &Observation::Absent, &mut store),
        EventOutcome::Failed(StoreError::NotFound)
    );
}

#[test]
fn listing_feeds_discovered_files_and_scores_them() {
    let mut store = store_with(vec![FileRecord {
        tidy_score: Some(40),
        ..seen_file("/known.tmp", 1, "s", 1)
    }]);
    let discovered = vec![
        seen_file("/a/b/c.tmp", 1, "s", 950),
        seen_file("/known.tmp", 2, "t", 2),
        seen_file("/plain", 3, "u", 0),
        seen_file("/a/b/c.tmp", 9, "again", 9),
    ];
    let outcomes = list_directories(&discovered, &mut store, &policy(), DuplicatePolicy::Report);
    assert_eq!(
        outcomes,
        vec![
            EventOutcome::Applied,
            EventOutcome::Failed(StoreError::DuplicateKey),
            EventOutcome::Applied,
            EventOutcome::Failed(StoreError::DuplicateKey),
        ]
    );
    assert_eq!(
        snapshot(&store),
        vec![
            FileRecord { tidy_score: Some(6), ..seen_file("/a/b/c.tmp", 1, "s", 950) },
            FileRecord { tidy_score: Some(40), ..seen_file("/known.tmp", 1, "s", 1) },
            FileRecord { tidy_score: Some(2), ..seen_file("/plain", 3, "u", 0) },
        ]
    );
}

#[test]
fn listing_of_nothing_changes_nothing() {
    let mut store = store_with(vec![seen_file("/a", 1, "s", 1)]);
    assert!(
        list_directories(&Vec::new(), &mut store, &policy(), DuplicatePolicy::Report).is_empty()
    );
    assert!(
        list_directories(&Vec::new(), &mut store, &policy(), DuplicatePolicy::Replace).is_empty()
    );
    assert_eq!(store.list_all(), vec![seen_file("/a", 1, "s", 1)]);
}

#[test]
fn update_all_grades_scores_every_record() {
    let mut store = store_with(vec![
        seen_file("/a/b/c.tmp", 1, "s", 100),
        FileRecord { tidy_score: Some(99), ..seen_file("/plain", 2, "t", 990) },
        seen_file("/dir/file", 3, "u", 900),
    ]);
    update_all_grades(&mut store, &policy());
    assert_eq!(
        snapshot(&store),
        vec![
            FileRecord { tidy_score: Some(8), ..seen_file("/a/b/c.tmp", 1, "s", 100) },
            FileRecord { tidy_score: Some(3), ..seen_file("/dir/file", 3, "u", 900) },
            FileRecord { tidy_score: Some(0), ..seen_file("/plain", 2, "t", 990) },
        ]
    );
    let mut empty = store_with(Vec::new());
    update_all_grades(&mut empty, &policy());
    assert_eq!(empty.len(), 0);
}

#[test]
fn listings_between_events_show_only_records_added_and_not_removed() {
    // Created and Removed notifications for disjoint paths, with a listing
    // taken after each: a listing never shows a path that was not added, nor
    // one that was removed.
    let mut store = store_with(Vec::new());
    let rules = policy();
    let mut alive: Vec<String> = Vec::new();
    for round in 0..40u64 {
        let path = format!("/watched/file-{}", round % 7);
        if alive.contains(&path) {
            let outcome = handle_file_events(
                &signal(SignalKind::Remove, &[&path]),
                Observation::Absent,
                &mut store,
                &rules,
            );
            assert_eq!(outcome, EventOutcome::Applied);
            alive.retain(|known| known != &path);
        } else {
            let outcome = handle_file_events(
                &signal(SignalKind::Create, &[&path]),
                Observation::File(seen_file(&path, round, "s", round)),
                &mut store,
                &rules,
            );
            assert_eq!(outcome, EventOutcome::Applied);
            alive.push(path);
        }
        let mut listed: Vec<String> =
            store.list_all().into_iter().map(|record| record.path).collect();
        listed.sort();
        let mut expected = alive.clone();
        expected.sort();
        assert_eq!(listed, expected);
    }
}

#[test]
fn applying_an_action_is_handling_its_notification() {
    let rules = policy();
    let mut by_signal = store_with(vec![seen_file("/a.tmp", 1, "s", 1)]);
    let mut by_action = by_signal.clone();
    let rename = signal(SignalKind::Modify(ModifyKind::Name), &["/a.tmp", "/b/c/d.tmp"]);
    let first = handle_file_events(&rename, Observation::Exists, &mut by_signal, &rules);
    let second = apply_action(normalize(&rename), Observation::Exists, &mut by_action, &rules);
    assert_eq!(first, EventOutcome::Applied);
    assert_eq!(first, second);
    assert_eq!(snapshot(&by_signal), snapshot(&by_action));
    assert_eq!(
        apply_action(CanonicalAction::Ignored, Observation::Absent, &mut by_action, &rules),
        EventOutcome::Ignored
    );
}

#[test]
fn each_action_says_what_to_look_at() {
    let path = "/a".to_string();
    let removed = CanonicalAction::Removed { path: path.clone() };
    let created = CanonicalAction::Created { path: path.clone() };
    let touched = CanonicalAction::MetadataChanged { path: path.clone() };
    let written = CanonicalAction::ContentChanged { path: path.clone() };
    let renamed = CanonicalAction::Renamed { from: path.clone(), to: "/b".to_string() };
    assert_eq!(removed.probe(), Probe::Existence);
    assert_eq!(created.probe(), Probe::Attributes);
    assert_eq!(touched.probe(), Probe::LastModified);
    assert_eq!(written.probe(), Probe::Signature);
    assert_eq!(renamed.probe(), Probe::Nothing);
    assert_eq!(CanonicalAction::Ignored.probe(), Probe::Nothing);
    for action in [&removed, &created, &touched, &written] {
        assert_eq!(action.probed_path(), Some(&path));
    }
    assert_eq!(renamed.probed_path(), None);
    assert_eq!(CanonicalAction::Ignored.probed_path(), None);
}

#[test]
fn listing_replaces_known_files_when_told_to() {
    let mut store = store_with(vec![
        FileRecord { tidy_score: Some(40), ..seen_file("/known.tmp", 1, "s", 1) },
        seen_file("/untouched", 5, "v", 5),
    ]);
    let discovered = vec![
        seen_file("/a/b/c.tmp", 1, "s", 950),
        seen_file("/known.tmp", 2, "t", 990),
        seen_file("/a/b/c.tmp", 9, "again", 100),
    ];
    let outcomes = list_directories(&discovered, &mut store, &policy(), DuplicatePolicy::Replace);
    assert_eq!(outcomes, vec![EventOutcome::Applied; 3]);
    assert_eq!(
        snapshot(&store),
        vec![
            // The later of the two discoveries stands: .tmp (5), depth (1), age 900 (2).
            FileRecord { tidy_score: Some(8), ..seen_file("/a/b/c.tmp", 9, "again", 100) },
            FileRecord { tidy_score: Some(5), ..seen_file("/known.tmp", 2, "t", 990) },
            seen_file("/untouched", 5, "v", 5),
        ]
    );
}

#[test]
fn ingest_adds_scores_and_follows_the_policy() {
    let rules = policy();
    let mut store = store_with(Vec::new());
    assert_eq!(
        ingest(seen_file("/x.tmp", 1, "s", 0), &mut store, &rules, DuplicatePolicy::Report),
        EventOutcome::Applied
    );
    assert_eq!(
        store.get("/x.tmp"),
        Some(FileRecord { tidy_score: Some(7), ..seen_file("/x.tmp", 1, "s", 0) })
    );
    assert_eq!(
        ingest(seen_file("/x.tmp", 2, "t", 999), &mut store, &rules, DuplicatePolicy::Report),
        EventOutcome::Failed(StoreError::DuplicateKey)
    );
    assert_eq!(store.get("/x.tmp").unwrap().size, 1);
    assert_eq!(
        ingest(seen_file("/x.tmp", 2, "t", 999), &mut store, &rules, DuplicatePolicy::Replace),
        EventOutcome::Applied
    );
    assert_eq!(
        store.list_all(),
        vec![FileRecord { tidy_score: Some(5), ..seen_file("/x.tmp", 2, "t", 999) }]
    );
}
