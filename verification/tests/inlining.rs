//! Tests for the inlining operation and the path reconciler.

use cargo_member::diag::Diagnostic;
use cargo_member::inline::inline_entry;
use cargo_member::inline::unworkspaceify_deps;
use cargo_member::model::DepEntry;
use cargo_member::model::DepField;
use cargo_member::model::DepRecord;
use cargo_member::model::DepValue;
use cargo_member::model::PackageDeps;
use cargo_member::model::WorkspaceDeps;
use cargo_member::paths::path_join;
use cargo_member::paths::relative_display;

fn bare(s: &str) -> DepEntry {
    DepEntry::Bare(s.to_string())
}

fn table(fields: Vec<(&str, DepValue)>) -> DepEntry {
    DepEntry::Table {
        compact: false,
        fields: fields
            .into_iter()
            .map(|(k, v)| DepField { key: k.to_string(), value: v })
            .collect(),
    }
}

fn text(s: &str) -> DepValue {
    DepValue::Text(s.to_string())
}

fn flag(b: bool) -> DepValue {
    DepValue::Flag(b)
}

fn rec(name: &str, entry: DepEntry) -> DepRecord {
    DepRecord { name: name.to_string(), entry }
}

fn workspace(entries: Vec<DepRecord>) -> WorkspaceDeps {
    WorkspaceDeps { entries }
}

fn package(dependencies: Vec<DepRecord>) -> PackageDeps {
    PackageDeps { dependencies, dev_dependencies: Vec::new(), build_dependencies: Vec::new() }
}

#[test]
fn path_join_appends_behind_a_separator() {
    assert_eq!(path_join("/w", "lib").as_str(), "/w/lib");
    assert_eq!(path_join("/w/", "lib").as_str(), "/w/lib");
    assert_eq!(path_join("/w", "/abs").as_str(), "/abs");
    assert_eq!(path_join("", "lib").as_str(), "lib");
}

#[test]
fn relative_display_strips_the_root() {
    assert_eq!(relative_display("/w/pkg", "/w").as_str(), "pkg");
    assert_eq!(relative_display("/w", "/w").as_str(), "");
    assert_eq!(relative_display("/elsewhere", "/w").as_str(), "/elsewhere");
    assert_eq!(relative_display("/www/pkg", "/w").as_str(), "/www/pkg");
}

#[test]
fn inlining_copies_the_workspace_declaration() {
    let ws_e = bare("2.6");
    let crate_e = table(vec![("workspace", flag(true))]);
    let r = inline_entry(&ws_e, &crate_e, "/w", "/w/pkg");
    assert_eq!(r, bare("2.6"));
}

#[test]
fn inlining_reapplies_the_optional_flag() {
    let ws_e = bare("2.6");
    let crate_e = table(vec![("workspace", flag(true)), ("optional", flag(true))]);
    let r = inline_entry(&ws_e, &crate_e, "/w", "/w/pkg");
    // The bare copy is promoted to a table so the flag has somewhere to go.
    assert_eq!(r, table(vec![("version", text("2.6")), ("optional", flag(true))]));
}

#[test]
fn inlining_rewrites_a_relative_path_for_the_package() {
    // Workspace root /w declares `path = "lib"`, so the target is /w/lib;
    // from the package at /w/pkg that same location is reached as ../lib.
    let ws_e = table(vec![("version", text("1")), ("path", text("lib"))]);
    let crate_e = table(vec![("workspace", flag(true))]);
    let r = inline_entry(&ws_e, &crate_e, "/w", "/w/pkg");
    assert_eq!(r, table(vec![("version", text("1")), ("path", text("../lib"))]));
}

#[test]
fn inlining_copies_an_absolute_path_verbatim() {
    let ws_e = table(vec![("path", text("/opt/lib"))]);
    let crate_e = table(vec![("workspace", flag(true))]);
    let r = inline_entry(&ws_e, &crate_e, "/w", "/w/pkg");
    assert_eq!(r, table(vec![("path", text("/opt/lib"))]));
}

#[test]
fn inlining_rewrites_inherited_entries_only() {
    let ws = workspace(vec![rec("bitflags", bare("2.6")), rec("rand", bare("0.8"))]);
    let pkg = package(vec![
        rec("bitflags", table(vec![("workspace", flag(true))])),
        rec("rand", bare("0.8")),
    ]);
    let r = unworkspaceify_deps(Some(&ws), &pkg, "/w", "/w/pkg");
    assert!(r.changed);
    assert_eq!(r.deps.dependencies[0], rec("bitflags", bare("2.6")));
    assert_eq!(r.deps.dependencies[1], rec("rand", bare("0.8")));
    assert_eq!(
        r.diagnostics,
        vec![Diagnostic::Updating { name: "bitflags".to_string(), location: "pkg".to_string() }]
    );
    assert_eq!(r.diagnostics[0].render(), "Updating \"bitflags\" in pkg");
}

#[test]
fn inlining_warns_about_names_the_workspace_lacks() {
    let ws = workspace(vec![rec("bitflags", bare("2.6"))]);
    let pkg = package(vec![rec("foo", table(vec![("workspace", flag(true))]))]);
    let r = unworkspaceify_deps(Some(&ws), &pkg, "/w", "/w/pkg");
    assert!(!r.changed);
    assert_eq!(r.deps.dependencies[0], rec("foo", table(vec![("workspace", flag(true))])));
    assert_eq!(r.diagnostics, vec![Diagnostic::NotInWorkspace { name: "foo".to_string() }]);
    assert_eq!(r.diagnostics[0].render(), "No \"foo\" in workspace");
    assert!(r.diagnostics[0].is_warning());
}

#[test]
fn inlining_without_a_shared_table_is_a_no_op() {
    let pkg = package(vec![rec("foo", table(vec![("workspace", flag(true))]))]);
    let r = unworkspaceify_deps(None, &pkg, "/w", "/w/pkg");
    assert!(!r.changed);
    assert!(r.diagnostics.is_empty());
    assert_eq!(r.deps.dependencies[0], rec("foo", table(vec![("workspace", flag(true))])));
}

#[test]
fn inlining_processes_all_three_sections() {
    let ws = workspace(vec![rec("serde", bare("1"))]);
    let pkg = PackageDeps {
        dependencies: vec![rec("serde", table(vec![("workspace", flag(true))]))],
        dev_dependencies: vec![rec("serde", table(vec![("workspace", flag(true))]))],
        build_dependencies: vec![rec("serde", table(vec![("workspace", flag(true))]))],
    };
    let r = unworkspaceify_deps(Some(&ws), &pkg, "/w", "/w/pkg");
    assert!(r.changed);
    assert_eq!(r.deps.dependencies[0].entry, bare("1"));
    assert_eq!(r.deps.dev_dependencies[0].entry, bare("1"));
    assert_eq!(r.deps.build_dependencies[0].entry, bare("1"));
    assert_eq!(r.diagnostics.len(), 3);
}

#[test]
fn inlining_drops_the_workspaces_own_optional_flag() {
    // Optional-ness belongs to the package: a stray `optional = true` in
    // the workspace's declaration must not leak into a non-optional entry.
    let ws_e = table(vec![("version", text("1")), ("optional", flag(true))]);
    let crate_e = table(vec![("workspace", flag(true))]);
    let r = inline_entry(&ws_e, &crate_e, "/w", "/w/pkg");
    assert_eq!(r, table(vec![("version", text("1"))]));
}

#[test]
fn inlining_overrides_the_workspaces_optional_in_place() {
    // An optional package entry keeps its flag; the workspace's own field
    // is overwritten where it stood rather than duplicated.
    let ws_e = table(vec![("optional", flag(false)), ("version", text("1"))]);
    let crate_e = table(vec![("workspace", flag(true)), ("optional", flag(true))]);
    let r = inline_entry(&ws_e, &crate_e, "/w", "/w/pkg");
    assert_eq!(r, table(vec![("optional", flag(true)), ("version", text("1"))]));
}
