use tidy_agent::file_info::{content_signature, digest, FileAttributes, FileRecord};
use tidy_agent::tidy_algo::{evaluate, RuleSet};
use tidy_agent::tidy_rules::Rule;

fn file(path: &str, size: u64, last_modified: u64) -> FileAttributes {
    FileAttributes { path: path.to_string(), size, last_modified }
}

fn extension(extension: &str, weight: u32) -> Rule {
    Rule::Extension { extension: extension.to_string(), weight }
}

fn name_contains(fragment: &str, weight: u32) -> Rule {
    Rule::NameContains { fragment: fragment.to_string(), weight }
}

fn rule_set(rules: Vec<Rule>, loaded_at: u64) -> RuleSet {
    RuleSet::from_rules(rules, loaded_at)
}

#[test]
fn empty_rule_set_scores_zero() {
    let rules = RuleSet::new(100);
    assert_eq!(rules.len(), 0);
    assert_eq!(evaluate(&file("/a/b.txt", 1, 1), &rules), 0);
}

#[test]
fn score_is_sum_of_satisfied_weights() {
    let rules = rule_set(
        vec![
            extension("tmp", 5),
            name_contains("backup", 3),
            Rule::OlderThan { seconds: 100, weight: 2 },
            Rule::MinDepth { depth: 3, weight: 1 },
            extension("log", 50),
        ],
        1_000,
    );
    // Ends with .tmp (5), name holds "backup" (3), age 1000 - 800 = 200 >= 100 (2),
    // three separators (1); not a .log file.
    assert_eq!(evaluate(&file("/var/data/backup_old.tmp", 10, 800), &rules), 11);
}

#[test]
fn evaluate_is_deterministic() {
    let rules = rule_set(vec![extension("tmp", 5), name_contains("a", 7)], 50);
    let subject = file("/x/a.tmp", 3, 4);
    let first = evaluate(&subject, &rules);
    let second = evaluate(&subject, &rules);
    let third = evaluate(&subject.clone(), &rules.clone());
    assert_eq!(first, 12);
    assert_eq!(first, second);
    assert_eq!(first, third);
}

#[test]
fn score_does_not_depend_on_rule_order() {
    let forward = vec![
        extension("tmp", 5),
        name_contains("report", 3),
        Rule::OlderThan { seconds: 10, weight: 2 },
        Rule::MinDepth { depth: 9, weight: 100 },
    ];
    let mut backward = forward.clone();
    backward.reverse();
    let mut rotated = forward.clone();
    rotated.rotate_left(1);
    let subject = file("/home/report.tmp", 0, 0);
    let expected = 5 + 3 + 2;
    assert_eq!(evaluate(&subject, &rule_set(forward, 10)), expected);
    assert_eq!(evaluate(&subject, &rule_set(backward, 10)), expected);
    assert_eq!(evaluate(&subject, &rule_set(rotated, 10)), expected);
}

#[test]
fn extension_rule_needs_the_dot_and_the_end() {
    let rules = rule_set(vec![extension("tmp", 4)], 0);
    assert_eq!(evaluate(&file("/a/file.tmp", 0, 0), &rules), 4);
    assert_eq!(evaluate(&file("/a/.tmp", 0, 0), &rules), 4);
    assert_eq!(evaluate(&file("/a/filetmp", 0, 0), &rules), 0);
    assert_eq!(evaluate(&file("/a/file.tmp.gz", 0, 0), &rules), 0);
    assert_eq!(evaluate(&file("tmp", 0, 0), &rules), 0);
    assert_eq!(evaluate(&file("", 0, 0), &rules), 0);
}

#[test]
fn name_rule_reads_the_file_name_only() {
    let rules = rule_set(vec![name_contains("old", 6)], 0);
    assert_eq!(evaluate(&file("/data/very_old_file", 0, 0), &rules), 6);
    assert_eq!(evaluate(&file("old", 0, 0), &rules), 6);
    assert_eq!(evaluate(&file("/old/new", 0, 0), &rules), 0);
    assert_eq!(evaluate(&file("/data/ol", 0, 0), &rules), 0);
    assert_eq!(evaluate(&file("/data/o/ld", 0, 0), &rules), 0);
}

#[test]
fn age_rule_compares_with_the_load_time() {
    let rules = rule_set(vec![Rule::OlderThan { seconds: 60, weight: 9 }], 1_000);
    assert_eq!(evaluate(&file("/a", 0, 940), &rules), 9);
    assert_eq!(evaluate(&file("/a", 0, 941), &rules), 0);
    assert_eq!(evaluate(&file("/a", 0, 0), &rules), 9);
    // Modified after the rules were loaded: no age to speak of.
    assert_eq!(evaluate(&file("/a", 0, 2_000), &rules), 0);
}

#[test]
fn depth_rule_counts_separators() {
    let rules = rule_set(vec![Rule::MinDepth { depth: 2, weight: 8 }], 0);
    assert_eq!(evaluate(&file("/a/b", 0, 0), &rules), 8);
    assert_eq!(evaluate(&file("/a/b/c/d", 0, 0), &rules), 8);
    assert_eq!(evaluate(&file("/a", 0, 0), &rules), 0);
    assert_eq!(evaluate(&file("a", 0, 0), &rules), 0);
    let always = rule_set(vec![Rule::MinDepth { depth: 0, weight: 1 }], 0);
    assert_eq!(evaluate(&file("", 0, 0), &always), 1);
}

#[test]
fn malformed_rule_is_skipped_not_fatal() {
    let rules = rule_set(
        vec![extension("", 1_000), name_contains("", 2_000), extension("txt", 7)],
        0,
    );
    assert!(!rules.rules()[0].is_well_formed());
    assert!(!rules.rules()[1].is_well_formed());
    assert!(rules.rules()[2].is_well_formed());
    // "/a/b." ends with a dot followed by nothing: the empty extension still earns nothing.
    assert_eq!(evaluate(&file("/a/b.", 0, 0), &rules), 0);
    assert_eq!(evaluate(&file("/a/b.txt", 0, 0), &rules), 7);
}

#[test]
fn repeated_rules_each_count() {
    let rules = rule_set(vec![extension("rs", 2), extension("rs", 2), extension("rs", 3)], 0);
    assert_eq!(evaluate(&file("lib.rs", 0, 0), &rules), 7);
}

#[test]
fn large_weights_do_not_overflow() {
    let rules = rule_set(vec![Rule::MinDepth { depth: 0, weight: u32::MAX }; 5], 0);
    assert_eq!(evaluate(&file("x", 0, 0), &rules), 5 * (u32::MAX as u128));
}

#[test]
fn rule_reports_weight_and_satisfaction() {
    let rule = extension("md", 12);
    assert_eq!(rule.weight(), 12);
    assert!(rule.is_satisfied_by(&file("README.md", 0, 0), 0));
    assert!(!rule.is_satisfied_by(&file("README.txt", 0, 0), 0));
    let age = Rule::OlderThan { seconds: 5, weight: 1 };
    assert!(age.is_satisfied_by(&file("a", 0, 5), 10));
    assert!(!age.is_satisfied_by(&file("a", 0, 6), 10));
}

#[test]
fn non_ascii_paths_are_matched_by_character() {
    let rules = rule_set(vec![extension("été", 3), name_contains("ß", 4)], 0);
    assert_eq!(evaluate(&file("/données/straße.été", 0, 0), &rules), 7);
    assert_eq!(evaluate(&file("/straße/x.ete", 0, 0), &rules), 0);
}

#[test]
fn record_attributes_are_those_of_the_record() {
    let record = FileRecord::new("/a/b.tmp".to_string(), 42, "sig".to_string(), 7);
    assert_eq!(record.tidy_score, None);
    assert!(!record.is_scored());
    assert_eq!(record.attributes(), file("/a/b.tmp", 42, 7));
    assert_eq!(record.duplicate(), record);
    let scored = FileRecord { tidy_score: Some(3), ..record };
    assert!(scored.is_scored());
}

#[test]
fn digest_follows_the_published_values() {
    assert_eq!(digest(b""), 0xcbf2_9ce4_8422_2325);
    assert_eq!(digest(b"a"), 0xaf63_dc4c_8601_ec8c);
    assert_eq!(digest(b"foobar"), 0x8594_4171_f739_67e8);
    assert_ne!(digest(b"ab"), digest(b"ba"));
}

#[test]
fn signature_is_the_digest_in_decimal() {
    assert_eq!(content_signature(b""), "14695981039346656037");
    assert_eq!(content_signature(b"a"), "12638187200555641996");
    assert_eq!(content_signature(b"foobar"), 0x8594_4171_f739_67e8u64.to_string());
}
