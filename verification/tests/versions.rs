//! Tests for the version reconciler: the relaxed parser, the lock index,
//! and the decision policy.

use cargo_member::lock::LockFileVersions;
use cargo_member::lock::LockRecord;
use cargo_member::model::DepEntry;
use cargo_member::model::DepField;
use cargo_member::model::DepValue;
use cargo_member::versions::VersionDecision;
use cargo_member::versions::parse_relaxed;
use cargo_member::versions::version_decision;

fn bare(s: &str) -> DepEntry {
    DepEntry::Bare(s.to_string())
}

fn table(fields: Vec<(&str, DepValue)>) -> DepEntry {
    DepEntry::Table {
        compact: false,
        fields: fields
            .into_iter()
            .map(|(k, v)| DepField { key: k.to_string(), value: v })
            .collect(),
    }
}

fn text(s: &str) -> DepValue {
    DepValue::Text(s.to_string())
}

fn no_lock() -> LockFileVersions {
    LockFileVersions::new(Vec::new())
}

fn lock_with(name: &str, version: &str) -> LockFileVersions {
    LockFileVersions::new(vec![LockRecord {
        name: name.to_string(),
        version: version.to_string(),
    }])
}

#[test]
fn relaxed_parser_fills_in_missing_components() {
    assert_eq!(parse_relaxed("1"), Some((1, 0, 0)));
    assert_eq!(parse_relaxed("1.2"), Some((1, 2, 0)));
    assert_eq!(parse_relaxed("1.2.3"), Some((1, 2, 3)));
}

#[test]
fn relaxed_parser_rejects_everything_else() {
    assert_eq!(parse_relaxed("1.2.3-beta"), None);
    assert_eq!(parse_relaxed("*"), None);
    assert_eq!(parse_relaxed(""), None);
    assert_eq!(parse_relaxed("1."), None);
    assert_eq!(parse_relaxed(".1"), None);
    assert_eq!(parse_relaxed("1.2.3.4"), None);
    assert_eq!(parse_relaxed("1.2.x"), None);
    assert_eq!(parse_relaxed("99999999999999999999999999"), None);
}

#[test]
fn relaxed_parser_handles_large_components() {
    assert_eq!(
        parse_relaxed("18446744073709551615"),
        Some((u64::MAX, 0, 0))
    );
    assert_eq!(parse_relaxed("18446744073709551616"), None);
}

#[test]
fn lock_lookup_finds_recorded_versions() {
    let lock = lock_with("rand", "0.8.5");
    assert_eq!(lock.lookup("rand"), Some("0.8.5"));
    assert_eq!(lock.lookup("serde"), None);
    assert_eq!(no_lock().lookup("rand"), None);
}

#[test]
fn decision_matches_equal_exact_versions() {
    let ws = bare("2.6");
    let dep = bare("2.6");
    assert_eq!(
        version_decision(&ws, &dep, "bitflags", &no_lock()),
        VersionDecision::Compatible
    );
}

#[test]
fn decision_rejects_older_crate_version() {
    let ws = bare("0.8");
    let dep = table(vec![("version", text("0.7"))]);
    assert_eq!(
        version_decision(&ws, &dep, "rand", &no_lock()),
        VersionDecision::Mismatch
    );
}

#[test]
fn decision_prefers_the_lock_file() {
    // The entry's own version would mismatch, but the lock file resolves the
    // package to a version inside the workspace's range.
    let ws = bare("0.8");
    let dep = table(vec![("version", text("0.7"))]);
    let lock = lock_with("rand", "0.8.5");
    assert_eq!(
        version_decision(&ws, &dep, "rand", &lock),
        VersionDecision::Compatible
    );
}

#[test]
fn decision_is_one_sided_without_a_crate_version() {
    let ws = bare("0.8");
    let dep = table(vec![("optional", DepValue::Flag(true))]);
    assert_eq!(
        version_decision(&ws, &dep, "rand", &no_lock()),
        VersionDecision::OneSided
    );
}

#[test]
fn decision_is_one_sided_without_a_workspace_version() {
    let ws = table(vec![("path", text("lib"))]);
    let dep = bare("1.0");
    assert_eq!(
        version_decision(&ws, &dep, "lib", &no_lock()),
        VersionDecision::OneSided
    );
}

#[test]
fn decision_passes_pure_path_dependencies() {
    let ws = table(vec![("path", text("lib"))]);
    let dep = table(vec![("path", text("../lib"))]);
    assert_eq!(
        version_decision(&ws, &dep, "lib", &no_lock()),
        VersionDecision::NoVersions
    );
}

#[test]
fn decision_uses_the_relaxed_parse_of_partial_versions() {
    // "1.2" is no strict semantic version; the relaxed parse yields 1.2.0,
    // which the caret range "1" accepts.
    let ws = bare("1");
    let dep = bare("1.2");
    assert_eq!(
        version_decision(&ws, &dep, "serde", &no_lock()),
        VersionDecision::Compatible
    );
}

#[test]
fn decision_treats_unparseable_versions_as_missing() {
    // A wildcard fails both the strict and the relaxed parser, so the crate
    // side has no usable version.
    let ws = bare("1");
    let dep = bare("*");
    assert_eq!(
        version_decision(&ws, &dep, "serde", &no_lock()),
        VersionDecision::OneSided
    );
}

#[test]
fn lock_lookup_keeps_the_last_of_a_duplicated_name() {
    // A lock file can resolve one package name to two versions; the index
    // behaves like a map built by insertion, so the later record wins.
    let lock = LockFileVersions::new(vec![
        LockRecord { name: "rand".to_string(), version: "0.7.3".to_string() },
        LockRecord { name: "rand".to_string(), version: "0.8.5".to_string() },
    ]);
    assert_eq!(lock.lookup("rand"), Some("0.8.5"));
}
