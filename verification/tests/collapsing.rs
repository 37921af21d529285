//! Tests for the collapsing operation: the decision pipeline, the table
//! minimizer, idempotence, and the round trip with inlining.

use cargo_member::collapse::PathCanon;
use cargo_member::collapse::PathResolver;
use cargo_member::collapse::collapse_with;
use cargo_member::collapse::workspaceify_deps;
use cargo_member::diag::Diagnostic;
use cargo_member::inline::unworkspaceify_deps;
use cargo_member::lock::LockFileVersions;
use cargo_member::model::DepEntry;
use cargo_member::model::DepField;
use cargo_member::model::DepRecord;
use cargo_member::model::DepValue;
use cargo_member::model::PackageDeps;
use cargo_member::model::WorkspaceDeps;

fn bare(s: &str) -> DepEntry {
    DepEntry::Bare(s.to_string())
}

fn table(fields: Vec<(&str, DepValue)>) -> DepEntry {
    DepEntry::Table {
        compact: false,
        fields: fields
            .into_iter()
            .map(|(k, v)| DepField { key: k.to_string(), value: v })
            .collect(),
    }
}

fn compact(fields: Vec<(&str, DepValue)>) -> DepEntry {
    DepEntry::Table {
        compact: true,
        fields: fields
            .into_iter()
            .map(|(k, v)| DepField { key: k.to_string(), value: v })
            .collect(),
    }
}

fn text(s: &str) -> DepValue {
    DepValue::Text(s.to_string())
}

fn flag(b: bool) -> DepValue {
    DepValue::Flag(b)
}

fn rec(name: &str, entry: DepEntry) -> DepRecord {
    DepRecord { name: name.to_string(), entry }
}

fn workspace(entries: Vec<DepRecord>) -> WorkspaceDeps {
    WorkspaceDeps { entries }
}

fn package(dependencies: Vec<DepRecord>) -> PackageDeps {
    PackageDeps { dependencies, dev_dependencies: Vec::new(), build_dependencies: Vec::new() }
}

fn no_lock() -> LockFileVersions {
    LockFileVersions::new(Vec::new())
}

fn no_paths() -> PathResolver {
    PathResolver::new()
}

fn resolver(entries: Vec<(&str, Option<&str>)>) -> PathResolver {
    PathResolver {
        entries: entries
            .into_iter()
            .map(|(p, c)| PathCanon { path: p.to_string(), canonical: c.map(|s| s.to_string()) })
            .collect(),
    }
}

#[test]
fn minimal_collapse_yields_the_compact_form() {
    // Workspace and package agree on `bitflags = "2.6"`: the entry becomes a
    // single dotted `workspace = true` assignment and counts as a change.
    let ws = workspace(vec![rec("bitflags", bare("2.6"))]);
    let pkg = package(vec![rec("bitflags", bare("2.6"))]);
    let r = collapse_with(&ws, &pkg, &no_lock(), &no_paths(), "/w", "/w/pkg").unwrap();
    assert!(r.changed);
    assert_eq!(r.deps.dependencies[0], rec("bitflags", compact(vec![("workspace", flag(true))])));
    assert!(r.diagnostics.is_empty());
}

#[test]
fn version_mismatch_skips_the_entry() {
    // Workspace wants rand 0.8, the package declares 0.7 and no lock file
    // overrides it: the entry stays as it is and the only signal is the
    // warning, so the manifest must not be rewritten.
    let ws = workspace(vec![rec("rand", bare("0.8"))]);
    let pkg = package(vec![rec("rand", table(vec![("version", text("0.7"))]))]);
    let r = collapse_with(&ws, &pkg, &no_lock(), &no_paths(), "/w", "/w/pkg").unwrap();
    assert!(!r.changed);
    assert_eq!(r.deps.dependencies[0], rec("rand", table(vec![("version", text("0.7"))])));
    assert_eq!(r.diagnostics, vec![Diagnostic::VersionMismatch { name: "rand".to_string() }]);
    assert_eq!(
        r.diagnostics[0].render(),
        "Skipping dependency \"rand\": version mismatch"
    );
}

#[test]
fn missing_version_on_one_side_skips_the_entry() {
    let ws = workspace(vec![rec("rand", bare("0.8"))]);
    let pkg = package(vec![rec("rand", table(vec![("default-features", flag(false))]))]);
    let r = collapse_with(&ws, &pkg, &no_lock(), &no_paths(), "/w", "/w/pkg").unwrap();
    assert!(!r.changed);
    assert_eq!(
        r.diagnostics,
        vec![Diagnostic::NoVersionSkip { name: "rand".to_string() }]
    );
    assert_eq!(
        r.diagnostics[0].render(),
        "Skipping dependency \"rand\": no version in workspace/crate"
    );
}

#[test]
fn a_path_on_one_side_only_is_a_mismatch() {
    let ws = workspace(vec![rec("lib", table(vec![("version", text("1")), ("path", text("lib"))]))]);
    let pkg = package(vec![rec("lib", table(vec![("version", text("1"))]))]);
    let r = collapse_with(&ws, &pkg, &no_lock(), &no_paths(), "/w", "/w/pkg").unwrap();
    assert!(!r.changed);
    assert_eq!(r.diagnostics, vec![Diagnostic::PathMismatch { name: "lib".to_string() }]);
    assert_eq!(
        r.diagnostics[0].render(),
        "Skipping dependency \"lib\": path mismatch"
    );
}

#[test]
fn equivalent_paths_collapse() {
    // Both paths denote the same canonical location, so the entry collapses
    // and both the version and the path field disappear.
    let ws = workspace(vec![rec("lib", table(vec![("version", text("1")), ("path", text("lib"))]))]);
    let pkg = package(vec![rec(
        "lib",
        table(vec![("version", text("1")), ("path", text("../lib"))]),
    )]);
    let res = resolver(vec![
        ("/w/lib", Some("/real/w/lib")),
        ("/w/pkg/../lib", Some("/real/w/lib")),
    ]);
    let r = collapse_with(&ws, &pkg, &no_lock(), &res, "/w", "/w/pkg").unwrap();
    assert!(r.changed);
    assert_eq!(r.deps.dependencies[0], rec("lib", compact(vec![("workspace", flag(true))])));
}

#[test]
fn different_canonical_paths_skip_the_entry() {
    let ws = workspace(vec![rec("lib", table(vec![("version", text("1")), ("path", text("lib"))]))]);
    let pkg = package(vec![rec(
        "lib",
        table(vec![("version", text("1")), ("path", text("../other"))]),
    )]);
    let res = resolver(vec![
        ("/w/lib", Some("/real/w/lib")),
        ("/w/pkg/../other", Some("/real/w/other")),
    ]);
    let r = collapse_with(&ws, &pkg, &no_lock(), &res, "/w", "/w/pkg").unwrap();
    assert!(!r.changed);
    assert_eq!(r.diagnostics, vec![Diagnostic::PathMismatch { name: "lib".to_string() }]);
}

#[test]
fn a_failed_canonicalization_aborts_the_operation() {
    let ws = workspace(vec![
        rec("rand", bare("0.8")),
        rec("lib", table(vec![("version", text("1")), ("path", text("lib"))])),
    ]);
    let pkg = package(vec![
        rec("rand", bare("0.7")),
        rec("lib", table(vec![("version", text("1")), ("path", text("../lib"))])),
    ]);
    let err = collapse_with(&ws, &pkg, &no_lock(), &no_paths(), "/w", "/w/pkg").unwrap_err();
    assert_eq!(err.path, "/w/lib");
    // The warning emitted before the failure is preserved.
    assert_eq!(err.diagnostics, vec![Diagnostic::VersionMismatch { name: "rand".to_string() }]);
}

#[test]
fn entries_the_workspace_does_not_offer_are_untouched() {
    let ws = workspace(vec![rec("bitflags", bare("2.6"))]);
    let pkg = package(vec![rec("quux", bare("1.0"))]);
    let r = collapse_with(&ws, &pkg, &no_lock(), &no_paths(), "/w", "/w/pkg").unwrap();
    assert!(!r.changed);
    assert!(r.diagnostics.is_empty());
    assert_eq!(r.deps.dependencies[0], rec("quux", bare("1.0")));
}

#[test]
fn already_inherited_entries_are_untouched() {
    let ws = workspace(vec![rec("bitflags", bare("2.6"))]);
    let pkg = package(vec![rec("bitflags", compact(vec![("workspace", flag(true))]))]);
    let r = collapse_with(&ws, &pkg, &no_lock(), &no_paths(), "/w", "/w/pkg").unwrap();
    assert!(!r.changed);
    assert!(r.diagnostics.is_empty());
}

#[test]
fn the_minimizer_keeps_differing_and_package_local_fields() {
    let ws = workspace(vec![rec(
        "serde",
        table(vec![
            ("version", text("1")),
            ("features", DepValue::Verbatim("[\"derive\"]".to_string())),
        ]),
    )]);
    let pkg = package(vec![rec(
        "serde",
        table(vec![
            ("version", text("1")),
            ("features", DepValue::Verbatim("[\"derive\"]".to_string())),
            ("default-features", flag(false)),
            ("optional", flag(true)),
        ]),
    )]);
    let r = collapse_with(&ws, &pkg, &no_lock(), &no_paths(), "/w", "/w/pkg").unwrap();
    assert!(r.changed);
    // `features` repeats the workspace's value and disappears; the
    // package-local fields stay; the entry has more than the marker left,
    // so it is not compacted.
    assert_eq!(
        r.deps.dependencies[0],
        rec(
            "serde",
            table(vec![
                ("default-features", flag(false)),
                ("optional", flag(true)),
                ("workspace", flag(true)),
            ])
        )
    );
}

#[test]
fn collapsing_twice_changes_nothing_further() {
    let ws = workspace(vec![
        rec("bitflags", bare("2.6")),
        rec("rand", bare("0.8")),
        rec("serde", bare("1")),
    ]);
    let pkg = package(vec![
        rec("bitflags", bare("2.6")),
        rec("rand", table(vec![("version", text("0.7"))])),
        rec("serde", table(vec![("version", text("1")), ("optional", flag(true))])),
    ]);
    let first = collapse_with(&ws, &pkg, &no_lock(), &no_paths(), "/w", "/w/pkg").unwrap();
    assert!(first.changed);
    let second =
        collapse_with(&ws, &first.deps, &no_lock(), &no_paths(), "/w", "/w/pkg").unwrap();
    assert!(!second.changed);
    assert_eq!(second.deps, first.deps);
    assert_eq!(second.diagnostics, first.diagnostics);
}

#[test]
fn inlining_then_collapsing_restores_the_inherited_entry() {
    let ws = workspace(vec![rec("rand", bare("1.2.3"))]);
    let pkg = package(vec![rec(
        "rand",
        table(vec![("workspace", flag(true)), ("optional", flag(true))]),
    )]);
    let inlined = unworkspaceify_deps(Some(&ws), &pkg, "/w", "/w/pkg");
    assert!(inlined.changed);
    let back =
        collapse_with(&ws, &inlined.deps, &no_lock(), &no_paths(), "/w", "/w/pkg").unwrap();
    assert!(back.changed);
    assert_eq!(
        back.deps.dependencies[0],
        rec("rand", table(vec![("optional", flag(true)), ("workspace", flag(true))]))
    );
}

#[test]
fn optional_false_survives_collapsing_verbatim() {
    let ws = workspace(vec![rec("rand", bare("0.8"))]);
    let pkg = package(vec![rec(
        "rand",
        table(vec![("version", text("0.8")), ("optional", flag(false))]),
    )]);
    let r = collapse_with(&ws, &pkg, &no_lock(), &no_paths(), "/w", "/w/pkg").unwrap();
    assert!(r.changed);
    assert_eq!(
        r.deps.dependencies[0],
        rec("rand", table(vec![("optional", flag(false)), ("workspace", flag(true))]))
    );
}

#[test]
fn collapsing_without_paths_needs_no_file_system() {
    // The orchestrating entry point only consults the file system for
    // entries where both sides declare a path; without any it behaves as
    // the pure pipeline does.
    let ws = workspace(vec![rec("bitflags", bare("2.6"))]);
    let pkg = package(vec![rec("bitflags", bare("2.6"))]);
    let r = workspaceify_deps(Some(&ws), &pkg, &no_lock(), "/w", "/w/pkg").unwrap();
    assert!(r.changed);
    assert_eq!(r.deps.dependencies[0], rec("bitflags", compact(vec![("workspace", flag(true))])));
}

#[test]
fn collapsing_without_a_shared_table_is_a_no_op() {
    let pkg = package(vec![rec("bitflags", bare("2.6"))]);
    let r = workspaceify_deps(None, &pkg, &no_lock(), "/w", "/w/pkg").unwrap();
    assert!(!r.changed);
    assert!(r.diagnostics.is_empty());
    assert_eq!(r.deps.dependencies[0], rec("bitflags", bare("2.6")));
}

#[test]
fn collapsing_covers_dev_and_build_sections() {
    let ws = workspace(vec![rec("serde", bare("1"))]);
    let pkg = PackageDeps {
        dependencies: Vec::new(),
        dev_dependencies: vec![rec("serde", bare("1"))],
        build_dependencies: vec![rec("serde", bare("1"))],
    };
    let r = collapse_with(&ws, &pkg, &no_lock(), &no_paths(), "/w", "/w/pkg").unwrap();
    assert!(r.changed);
    assert_eq!(
        r.deps.dev_dependencies[0],
        rec("serde", compact(vec![("workspace", flag(true))]))
    );
    assert_eq!(
        r.deps.build_dependencies[0],
        rec("serde", compact(vec![("workspace", flag(true))]))
    );
}

#[test]
fn a_lock_version_that_does_not_parse_falls_back_to_the_entry() {
    // The lock file's version string is unusable, so the entry's own
    // version decides, and it is outside the workspace's range.
    let lock = LockFileVersions::new(vec![cargo_member::lock::LockRecord {
        name: "rand".to_string(),
        version: "not-a-version".to_string(),
    }]);
    let ws = workspace(vec![rec("rand", bare("0.8"))]);
    let pkg = package(vec![rec("rand", table(vec![("version", text("0.7"))]))]);
    let r = collapse_with(&ws, &pkg, &lock, &no_paths(), "/w", "/w/pkg").unwrap();
    assert!(!r.changed);
    assert_eq!(r.diagnostics, vec![Diagnostic::VersionMismatch { name: "rand".to_string() }]);
}

#[test]
fn textual_comparison_of_opaque_values_is_exact() {
    // The same array written with different whitespace is a different text,
    // so the minimizer must keep the field rather than drop it.
    let ws = workspace(vec![rec(
        "serde",
        table(vec![
            ("version", text("1")),
            ("features", DepValue::Verbatim("[\"a\", \"b\"]".to_string())),
        ]),
    )]);
    let pkg = package(vec![rec(
        "serde",
        table(vec![
            ("version", text("1")),
            ("features", DepValue::Verbatim("[\"a\",\"b\"]".to_string())),
        ]),
    )]);
    let r = collapse_with(&ws, &pkg, &no_lock(), &no_paths(), "/w", "/w/pkg").unwrap();
    assert!(r.changed);
    assert_eq!(
        r.deps.dependencies[0],
        rec(
            "serde",
            table(vec![
                ("features", DepValue::Verbatim("[\"a\",\"b\"]".to_string())),
                ("workspace", flag(true)),
            ])
        )
    );
}

#[test]
fn round_trip_never_introduces_optional() {
    // The workspace's declaration carries its own optional flag; the
    // package's inherited entry does not.  Inlining drops the stray flag,
    // so collapsing brings back a bare inherited marker without one.
    let ws = workspace(vec![rec(
        "rand",
        table(vec![("version", text("1.2.3")), ("optional", flag(true))]),
    )]);
    let pkg = package(vec![rec("rand", table(vec![("workspace", flag(true))]))]);
    let inlined = unworkspaceify_deps(Some(&ws), &pkg, "/w", "/w/pkg");
    assert_eq!(
        inlined.deps.dependencies[0],
        rec("rand", table(vec![("version", text("1.2.3"))]))
    );
    let back =
        collapse_with(&ws, &inlined.deps, &no_lock(), &no_paths(), "/w", "/w/pkg").unwrap();
    assert!(back.changed);
    assert_eq!(
        back.deps.dependencies[0],
        rec("rand", compact(vec![("workspace", flag(true))]))
    );
}
