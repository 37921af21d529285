//! The laws of the reconciliation engine: properties that relate the
//! operations to each other, stated and proved over the same specifications
//! the operations' own contracts use.

use vstd::prelude::*;

use crate::collapse::CollapseStepV;
use crate::collapse::PathCanonV;
use crate::collapse::PathVerdictV;
use crate::collapse::lemma_value_minimized;
use crate::collapse::spec_collapse_manifest;
use crate::collapse::spec_collapse_rewrite;
use crate::collapse::spec_collapse_section;
use crate::collapse::spec_collapse_step;
use crate::collapse::spec_path_check;
use crate::collapse::spec_step_outcome;
use crate::diag::DiagnosticV;
use crate::inline::ReconcilePassV;
use crate::inline::spec_inline_entry;
use crate::lock::LockRecordV;
use crate::model::DepEntryV;
use crate::model::DepRecordV;
use crate::model::DepValueV;
use crate::model::PackageDepsV;
use crate::model::lemma_value_after_remove;
use crate::model::lemma_value_after_remove_same;
use crate::model::lemma_value_after_set;
use crate::model::spec_entry_value;
use crate::model::spec_is_inherited;
use crate::model::spec_is_optional;
use crate::model::spec_lookup;
use crate::model::spec_path_of;
use crate::model::spec_promote;
use crate::model::spec_remove_field;
use crate::model::spec_set_field;
use crate::versions::VersionDecision;
use crate::versions::spec_version_decision;

verus! {

/// The four field keys the engine interprets are pairwise distinct.
proof fn lemma_keys_distinct()
    ensures
        "workspace"@ != "optional"@,
        "workspace"@ != "version"@,
        "workspace"@ != "path"@,
        "optional"@ != "version"@,
        "optional"@ != "path"@,
        "version"@ != "path"@,
{
    reveal_strlit("workspace");
    reveal_strlit("optional");
    reveal_strlit("version");
    reveal_strlit("path");
    assert(("workspace")@.len() == 9);
    assert(("optional")@.len() == 8);
    assert(("version")@.len() == 7);
    assert(("path")@.len() == 4);
}

/// Every entry is table-like after promotion.
proof fn lemma_promote_is_table(e: DepEntryV)
    ensures
        spec_promote(e) is Table,
{
    match e {
        DepEntryV::Bare(_) => {},
        DepEntryV::Table { .. } => {},
    }
}

/// Field values of an entry after a field is set.
proof fn lemma_entry_value_set(e: DepEntryV, key: Seq<char>, value: DepValueV, key2: Seq<char>)
    ensures
        spec_entry_value(spec_set_field(e, key, value), key2) == if key2 == key {
            Some(value)
        } else {
            spec_entry_value(spec_promote(e), key2)
        },
{
    lemma_promote_is_table(e);
    match spec_promote(e) {
        DepEntryV::Table { compact: _, fields } => {
            lemma_value_after_set(fields, key, value, key2);
        },
        DepEntryV::Bare(_) => {},
    }
}

/// Field values of an entry after another key's field is removed.
proof fn lemma_entry_value_remove(e: DepEntryV, key: Seq<char>, key2: Seq<char>)
    requires
        key2 != key,
    ensures
        spec_entry_value(spec_remove_field(e, key), key2) == spec_entry_value(e, key2),
{
    match e {
        DepEntryV::Bare(_) => {},
        DepEntryV::Table { compact: _, fields } => {
            lemma_value_after_remove(fields, key, key2);
        },
    }
}

/// A removed key has no value left in the entry.
proof fn lemma_entry_value_remove_same(e: DepEntryV, key: Seq<char>)
    ensures
        spec_entry_value(spec_remove_field(e, key), key) is None,
{
    match e {
        DepEntryV::Bare(_) => {},
        DepEntryV::Table { compact: _, fields } => {
            lemma_value_after_remove_same(fields, key);
        },
    }
}

/// Field values of the collapsed form: the inherited marker is set, and the
/// `optional` field is exactly what the original entry carried.
pub proof fn lemma_rewrite_fields(ws_e: DepEntryV, crate_e: DepEntryV)
    ensures
        spec_is_inherited(spec_collapse_rewrite(ws_e, crate_e)),
        spec_entry_value(spec_collapse_rewrite(ws_e, crate_e), "optional"@) == spec_entry_value(
            crate_e,
            "optional"@,
        ),
{
    lemma_keys_distinct();
    let t1 = spec_set_field(spec_promote(crate_e), "workspace"@, DepValueV::Flag(true));
    let t2 = spec_remove_field(t1, "version"@);
    let t3 = spec_remove_field(t2, "path"@);
    lemma_promote_is_table(crate_e);
    lemma_entry_value_set(spec_promote(crate_e), "workspace"@, DepValueV::Flag(true), "workspace"@);
    lemma_entry_value_set(spec_promote(crate_e), "workspace"@, DepValueV::Flag(true), "optional"@);
    lemma_entry_value_remove(t1, "version"@, "workspace"@);
    lemma_entry_value_remove(t1, "version"@, "optional"@);
    lemma_entry_value_remove(t2, "path"@, "workspace"@);
    lemma_entry_value_remove(t2, "path"@, "optional"@);
    assert(spec_entry_value(t3, "workspace"@) == Some(DepValueV::Flag(true)));
    assert(spec_promote(spec_promote(crate_e)) == spec_promote(crate_e));
    assert(t1 is Table);
    assert(t2 is Table);
    assert(t3 is Table);
    match t3 {
        DepEntryV::Table { compact: _, fields } => {
            lemma_value_minimized(ws_e, fields, "workspace"@);
            lemma_value_minimized(ws_e, fields, "optional"@);
        },
        DepEntryV::Bare(_) => {},
    }
    lemma_promote_keeps_value(crate_e, "optional"@);
}

/// Collapsing never invents, drops or changes an `optional` flag: the
/// rewritten entry carries exactly the `optional` field the package's entry
/// carried, and in particular is optional iff the package's entry was.
pub proof fn lemma_collapse_preserves_optional(ws_e: DepEntryV, crate_e: DepEntryV)
    ensures
        spec_entry_value(spec_collapse_rewrite(ws_e, crate_e), "optional"@) == spec_entry_value(
            crate_e,
            "optional"@,
        ),
        spec_is_optional(spec_collapse_rewrite(ws_e, crate_e)) == spec_is_optional(crate_e),
{
    lemma_rewrite_fields(ws_e, crate_e);
}

/// Inlining never inherits optional-ness from the workspace: whatever
/// `optional` field the workspace's declaration carries, the inlined entry
/// carries `optional = true` exactly when the package's entry did, and no
/// `optional` field at all otherwise.
pub proof fn lemma_inline_preserves_optional(
    ws_e: DepEntryV,
    crate_e: DepEntryV,
    root_dir: Seq<char>,
    crate_dir: Seq<char>,
)
    ensures
        spec_entry_value(spec_inline_entry(ws_e, crate_e, root_dir, crate_dir), "optional"@)
            == if spec_is_optional(crate_e) {
            Some(DepValueV::Flag(true))
        } else {
            None::<DepValueV>
        },
        spec_is_optional(spec_inline_entry(ws_e, crate_e, root_dir, crate_dir))
            == spec_is_optional(crate_e),
{
    lemma_keys_distinct();
    let base = if spec_is_optional(crate_e) {
        spec_set_field(ws_e, "optional"@, DepValueV::Flag(true))
    } else {
        spec_remove_field(ws_e, "optional"@)
    };
    if spec_is_optional(crate_e) {
        lemma_entry_value_set(ws_e, "optional"@, DepValueV::Flag(true), "optional"@);
    } else {
        lemma_entry_value_remove_same(ws_e, "optional"@);
    }
    assert(spec_entry_value(base, "optional"@) == if spec_is_optional(crate_e) {
        Some(DepValueV::Flag(true))
    } else {
        None::<DepValueV>
    });
    let r = spec_inline_entry(ws_e, crate_e, root_dir, crate_dir);
    match spec_path_of(ws_e) {
        Some(p) => {
            if !crate::paths::spec_is_absolute(p) {
                match crate::paths::spec_path_diff(
                    crate::paths::spec_join(root_dir, p),
                    crate_dir,
                ) {
                    Some(np) => {
                        lemma_entry_value_set(base, "path"@, DepValueV::Text(np), "optional"@);
                        assert(spec_entry_value(r, "optional"@) == spec_entry_value(
                            spec_promote(base),
                            "optional"@,
                        ));
                        lemma_promote_keeps_value(base, "optional"@);
                    },
                    None => {},
                }
            }
        },
        None => {},
    }
}

/// One non-failing collapse step is stable: feeding its outcome back into
/// the pipeline leaves the entry as it is, reports no change, and repeats
/// exactly the diagnostics of the first pass.
pub proof fn lemma_step_stable(
    ws: Seq<DepRecordV>,
    rec: DepRecordV,
    lock: Seq<LockRecordV>,
    res: Seq<PathCanonV>,
    root_dir: Seq<char>,
    crate_dir: Seq<char>,
)
    requires
        !(spec_collapse_step(ws, rec, lock, res, root_dir, crate_dir) is Failed),
    ensures
        ({
            let st = spec_collapse_step(ws, rec, lock, res, root_dir, crate_dir);
            let h = spec_step_outcome(rec, st);
            let st2 = spec_collapse_step(ws, h.0, lock, res, root_dir, crate_dir);
            !(st2 is Failed) && spec_step_outcome(h.0, st2) == (h.0, h.1, false)
        }),
{
    let st = spec_collapse_step(ws, rec, lock, res, root_dir, crate_dir);
    let h = spec_step_outcome(rec, st);
    match st {
        CollapseStepV::Rewritten(e) => {
            let ws_e = spec_lookup(ws, rec.name)->Some_0;
            lemma_rewrite_fields(ws_e, rec.entry);
            assert(spec_is_inherited(e));
            assert(h.0.name == rec.name);
            assert(spec_collapse_step(ws, h.0, lock, res, root_dir, crate_dir)
                == CollapseStepV::Silent);
        },
        _ => {
            assert(h.0 == rec);
        },
    }
}

/// Collapsing a whole section twice: the second pass leaves every record as
/// the first pass left it, changes nothing, and repeats exactly the same
/// diagnostics.
pub proof fn lemma_collapse_section_idempotent(
    ws: Seq<DepRecordV>,
    recs: Seq<DepRecordV>,
    lock: Seq<LockRecordV>,
    res: Seq<PathCanonV>,
    root_dir: Seq<char>,
    crate_dir: Seq<char>,
)
    requires
        spec_collapse_section(ws, recs, lock, res, root_dir, crate_dir) is Ok,
    ensures
        ({
            let t = spec_collapse_section(ws, recs, lock, res, root_dir, crate_dir)->Ok_0;
            spec_collapse_section(ws, t.0, lock, res, root_dir, crate_dir) == Ok::<
                _,
                (Seq<char>, Seq<DiagnosticV>),
            >((t.0, t.1, false))
        }),
    decreases recs.len(),
{
    let t = spec_collapse_section(ws, recs, lock, res, root_dir, crate_dir)->Ok_0;
    if recs.len() == 0 {
        assert(t.0 =~= Seq::<DepRecordV>::empty());
    } else {
        let st = spec_collapse_step(ws, recs[0], lock, res, root_dir, crate_dir);
        assert(!(st is Failed));
        let h = spec_step_outcome(recs[0], st);
        let rest = spec_collapse_section(ws, recs.drop_first(), lock, res, root_dir, crate_dir);
        assert(rest is Ok);
        let rt = rest->Ok_0;
        lemma_collapse_section_idempotent(ws, recs.drop_first(), lock, res, root_dir, crate_dir);
        lemma_step_stable(ws, recs[0], lock, res, root_dir, crate_dir);
        let st2 = spec_collapse_step(ws, h.0, lock, res, root_dir, crate_dir);
        let u = t.0;
        assert(u == seq![h.0] + rt.0);
        assert(u.len() > 0);
        assert(u[0] == h.0);
        assert(u.drop_first() =~= rt.0);
        assert(spec_step_outcome(u[0], st2) == (h.0, h.1, false));
        assert(spec_collapse_section(ws, u, lock, res, root_dir, crate_dir) == Ok::<
            _,
            (Seq<char>, Seq<DiagnosticV>),
        >((seq![h.0] + rt.0, h.1 + rt.1, false)));
    }
}

/// Idempotence of collapsing: when a collapse pass succeeds, running the
/// operation again on its result yields the very same dependency sections,
/// reports no further change, and emits exactly the same diagnostics as
/// the first pass.
pub proof fn lemma_collapse_idempotent(
    ws: Seq<DepRecordV>,
    pkg: PackageDepsV,
    lock: Seq<LockRecordV>,
    res: Seq<PathCanonV>,
    root_dir: Seq<char>,
    crate_dir: Seq<char>,
)
    requires
        spec_collapse_manifest(ws, pkg, lock, res, root_dir, crate_dir) is Ok,
    ensures
        ({
            let p1 = spec_collapse_manifest(ws, pkg, lock, res, root_dir, crate_dir)->Ok_0;
            spec_collapse_manifest(ws, p1.deps, lock, res, root_dir, crate_dir) == Ok::<
                _,
                (Seq<char>, Seq<DiagnosticV>),
            >(ReconcilePassV { deps: p1.deps, changed: false, diagnostics: p1.diagnostics })
        }),
{
    let a = spec_collapse_section(ws, pkg.dependencies, lock, res, root_dir, crate_dir);
    let b = spec_collapse_section(ws, pkg.dev_dependencies, lock, res, root_dir, crate_dir);
    let c = spec_collapse_section(ws, pkg.build_dependencies, lock, res, root_dir, crate_dir);
    assert(a is Ok && b is Ok && c is Ok);
    lemma_collapse_section_idempotent(ws, pkg.dependencies, lock, res, root_dir, crate_dir);
    lemma_collapse_section_idempotent(ws, pkg.dev_dependencies, lock, res, root_dir, crate_dir);
    lemma_collapse_section_idempotent(ws, pkg.build_dependencies, lock, res, root_dir, crate_dir);
}

/// A version mismatch skips the entry: the record comes through collapsing
/// untouched, counts as no change, and the only signal is the
/// version-mismatch warning.
pub proof fn lemma_version_mismatch_skips(
    ws: Seq<DepRecordV>,
    rec: DepRecordV,
    lock: Seq<LockRecordV>,
    res: Seq<PathCanonV>,
    root_dir: Seq<char>,
    crate_dir: Seq<char>,
)
    requires
        spec_lookup(ws, rec.name) is Some,
        !spec_is_inherited(rec.entry),
        spec_version_decision(spec_lookup(ws, rec.name)->Some_0, rec.entry, rec.name, lock)
            == VersionDecision::Mismatch,
    ensures
        spec_collapse_step(ws, rec, lock, res, root_dir, crate_dir) == CollapseStepV::SkipVersion,
        spec_step_outcome(rec, CollapseStepV::SkipVersion) == (
            rec,
            seq![DiagnosticV::VersionMismatch { name: rec.name }],
            false,
        ),
{
}

/// Round-trip recoverability: an inherited entry whose workspace
/// declaration has no `path`, inlined and then collapsed again (with a
/// version reconciler verdict of compatible, as an exact version
/// requirement gives), comes back as an inherited entry with the very same
/// `optional` flag, and never with a silently introduced one.
pub proof fn lemma_round_trip(
    ws: Seq<DepRecordV>,
    crate_e: DepEntryV,
    name: Seq<char>,
    lock: Seq<LockRecordV>,
    res: Seq<PathCanonV>,
    root_dir: Seq<char>,
    crate_dir: Seq<char>,
)
    requires
        spec_lookup(ws, name) is Some,
        !spec_is_inherited(spec_lookup(ws, name)->Some_0),
        spec_path_of(spec_lookup(ws, name)->Some_0) is None,
        spec_is_inherited(crate_e),
        spec_version_decision(
            spec_lookup(ws, name)->Some_0,
            spec_inline_entry(spec_lookup(ws, name)->Some_0, crate_e, root_dir, crate_dir),
            name,
            lock,
        ) == VersionDecision::Compatible,
    ensures
        ({
            let ws_e = spec_lookup(ws, name)->Some_0;
            let inlined = spec_inline_entry(ws_e, crate_e, root_dir, crate_dir);
            let collapsed = spec_collapse_rewrite(ws_e, inlined);
            &&& spec_collapse_step(
                ws,
                DepRecordV { name, entry: inlined },
                lock,
                res,
                root_dir,
                crate_dir,
            ) == CollapseStepV::Rewritten(collapsed)
            &&& spec_is_inherited(collapsed)
            &&& spec_is_optional(collapsed) == spec_is_optional(crate_e)
            &&& !spec_is_optional(crate_e) ==> spec_entry_value(collapsed, "optional"@) is None
        }),
{
    lemma_keys_distinct();
    let ws_e = spec_lookup(ws, name)->Some_0;
    let inlined = spec_inline_entry(ws_e, crate_e, root_dir, crate_dir);
    let collapsed = spec_collapse_rewrite(ws_e, inlined);
    let base = if spec_is_optional(crate_e) {
        spec_set_field(ws_e, "optional"@, DepValueV::Flag(true))
    } else {
        spec_remove_field(ws_e, "optional"@)
    };
    assert(inlined == base);
    if spec_is_optional(crate_e) {
        lemma_entry_value_set(ws_e, "optional"@, DepValueV::Flag(true), "workspace"@);
        lemma_entry_value_set(ws_e, "optional"@, DepValueV::Flag(true), "path"@);
        lemma_entry_value_set(ws_e, "optional"@, DepValueV::Flag(true), "optional"@);
        lemma_promote_keeps_value(ws_e, "workspace"@);
        lemma_promote_keeps_value(ws_e, "path"@);
    } else {
        lemma_entry_value_remove(ws_e, "optional"@, "workspace"@);
        lemma_entry_value_remove(ws_e, "optional"@, "path"@);
        lemma_entry_value_remove_same(ws_e, "optional"@);
    }
    assert(!spec_is_inherited(inlined));
    assert(spec_path_of(inlined) is None);
    assert(spec_path_check(ws_e, inlined, root_dir, crate_dir, res) == PathVerdictV::Equivalent);
    assert(spec_collapse_step(
        ws,
        DepRecordV { name, entry: inlined },
        lock,
        res,
        root_dir,
        crate_dir,
    ) == CollapseStepV::Rewritten(collapsed));
    lemma_rewrite_fields(ws_e, inlined);
    assert(spec_entry_value(collapsed, "optional"@) == spec_entry_value(inlined, "optional"@));
    if !spec_is_optional(crate_e) {
        assert(spec_entry_value(inlined, "optional"@) is None);
    }
}

/// Promotion does not change what a key's lookup yields, except that a bare
/// entry gains its `version` field.
proof fn lemma_promote_keeps_value(e: DepEntryV, key: Seq<char>)
    requires
        key != "version"@,
    ensures
        spec_entry_value(spec_promote(e), key) == spec_entry_value(e, key),
{
    match e {
        DepEntryV::Bare(_) => {
            match spec_promote(e) {
                DepEntryV::Table { compact: _, fields } => {
                    assert(fields.len() == 1);
                    assert(fields[0].key == "version"@);
                    assert(fields.drop_first() =~= Seq::<crate::model::DepFieldV>::empty());
                    assert(crate::model::spec_field_value(fields.drop_first(), key) is None);
                    assert(crate::model::spec_field_value(fields, key) is None);
                },
                DepEntryV::Bare(_) => {},
            }
        },
        DepEntryV::Table { .. } => {},
    }
}

} // verus!
