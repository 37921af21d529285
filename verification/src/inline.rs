//! The inlining operation: rewriting a package's dependency table so that
//! every entry inherited from the workspace becomes fully self-contained,
//! suitable for building the package outside the workspace.

use vstd::prelude::*;

use crate::diag::Diagnostic;
use crate::diag::DiagnosticV;
use crate::model::DepEntry;
use crate::model::DepEntryV;
use crate::model::DepRecord;
use crate::model::DepRecordV;
use crate::model::DepValue;
use crate::model::DepValueV;
use crate::model::PackageDeps;
use crate::model::PackageDepsV;
use crate::model::WorkspaceDeps;
use crate::model::spec_is_inherited;
use crate::model::spec_is_optional;
use crate::model::spec_lookup;
use crate::model::spec_path_of;
use crate::model::spec_remove_field;
use crate::model::spec_set_field;
use crate::paths::path_diff;
use crate::paths::path_is_relative;
use crate::paths::path_join;
use crate::paths::relative_display;
use crate::paths::spec_is_absolute;
use crate::paths::spec_join;
use crate::paths::spec_path_diff;
use crate::paths::spec_relative_display;

verus! {

/// The result of one reconciliation pass over a package's dependency
/// sections: the rewritten sections, whether anything changed (and the
/// manifest therefore needs to be written back), and the diagnostics in the
/// order they arose.
#[derive(Debug, PartialEq, Eq)]
pub struct ReconcilePass {
    pub deps: PackageDeps,
    pub changed: bool,
    pub diagnostics: Vec<Diagnostic>,
}

/// The mathematical value of a [`ReconcilePass`].
pub struct ReconcilePassV {
    pub deps: PackageDepsV,
    pub changed: bool,
    pub diagnostics: Seq<DiagnosticV>,
}

impl View for ReconcilePass {
    type V = ReconcilePassV;

    open spec fn view(&self) -> ReconcilePassV {
        ReconcilePassV {
            deps: self.deps@,
            changed: self.changed,
            diagnostics: self.diagnostics.deep_view(),
        }
    }
}

/// Inlining one inherited entry: the entry becomes a copy of the
/// workspace's declaration, except that optional-ness belongs to the
/// package, never to the workspace: `optional = true` is re-applied on top
/// of the copy when the package's entry carried it, and any `optional` the
/// workspace's declaration carried is dropped otherwise.  A relative
/// workspace `path` is rewritten so that, resolved against the package
/// directory, it denotes the same location as before.
pub open spec fn spec_inline_entry(
    ws_e: DepEntryV,
    crate_e: DepEntryV,
    root_dir: Seq<char>,
    crate_dir: Seq<char>,
) -> DepEntryV {
    let base = if spec_is_optional(crate_e) {
        spec_set_field(ws_e, "optional"@, DepValueV::Flag(true))
    } else {
        spec_remove_field(ws_e, "optional"@)
    };
    match spec_path_of(ws_e) {
        Some(p) => if !spec_is_absolute(p) {
            match spec_path_diff(spec_join(root_dir, p), crate_dir) {
                Some(np) => spec_set_field(base, "path"@, DepValueV::Text(np)),
                None => base,
            }
        } else {
            base
        },
        None => base,
    }
}

/// Inlines one inherited entry (see [`spec_inline_entry`]).
pub fn inline_entry(
    ws_e: &DepEntry,
    crate_e: &DepEntry,
    root_dir: &str,
    crate_dir: &str,
) -> (r: DepEntry)
    ensures
        r@ == spec_inline_entry(ws_e@, crate_e@, root_dir@, crate_dir@),
{
    let optional = crate_e.is_optional();
    let mut copy = ws_e.duplicate();
    if optional {
        copy = copy.set_field("optional", DepValue::Flag(true));
    } else {
        copy = copy.remove_field("optional");
    }
    match ws_e.path_of() {
        Some(p) => {
            if path_is_relative(p.as_str()) {
                let joined = path_join(root_dir, p.as_str());
                match path_diff(joined.as_str(), crate_dir) {
                    Some(np) => {
                        copy = copy.set_field("path", DepValue::Text(np));
                    },
                    None => {},
                }
            }
        },
        None => {},
    }
    copy
}

/// What inlining does to one record: entries without the inherited marker
/// are left untouched; an inherited entry is inlined and reported as an
/// update when the workspace declares its name, and left untouched with a
/// warning when it does not.
pub open spec fn spec_inline_record(
    ws: Seq<DepRecordV>,
    rec: DepRecordV,
    root_dir: Seq<char>,
    crate_dir: Seq<char>,
) -> (DepRecordV, Seq<DiagnosticV>, bool) {
    if !spec_is_inherited(rec.entry) {
        (rec, Seq::<DiagnosticV>::empty(), false)
    } else {
        match spec_lookup(ws, rec.name) {
            Some(ws_e) => (
                DepRecordV {
                    name: rec.name,
                    entry: spec_inline_entry(ws_e, rec.entry, root_dir, crate_dir),
                },
                seq![
                    DiagnosticV::Updating {
                        name: rec.name,
                        location: spec_relative_display(crate_dir, root_dir),
                    },
                ],
                true,
            ),
            None => (rec, seq![DiagnosticV::NotInWorkspace { name: rec.name }], false),
        }
    }
}

/// Inlining over a whole dependency section, in order.
pub open spec fn spec_inline_section(
    ws: Seq<DepRecordV>,
    recs: Seq<DepRecordV>,
    root_dir: Seq<char>,
    crate_dir: Seq<char>,
) -> (Seq<DepRecordV>, Seq<DiagnosticV>, bool)
    decreases recs.len(),
{
    if recs.len() == 0 {
        (Seq::<DepRecordV>::empty(), Seq::<DiagnosticV>::empty(), false)
    } else {
        let head = spec_inline_record(ws, recs[0], root_dir, crate_dir);
        let rest = spec_inline_section(ws, recs.drop_first(), root_dir, crate_dir);
        (seq![head.0] + rest.0, head.1 + rest.1, head.2 || rest.2)
    }
}

/// Inlining over the three dependency sections, in manifest order.
pub open spec fn spec_inline_manifest(
    ws: Seq<DepRecordV>,
    pkg: PackageDepsV,
    root_dir: Seq<char>,
    crate_dir: Seq<char>,
) -> ReconcilePassV {
    let a = spec_inline_section(ws, pkg.dependencies, root_dir, crate_dir);
    let b = spec_inline_section(ws, pkg.dev_dependencies, root_dir, crate_dir);
    let c = spec_inline_section(ws, pkg.build_dependencies, root_dir, crate_dir);
    ReconcilePassV {
        deps: PackageDepsV {
            dependencies: a.0,
            dev_dependencies: b.0,
            build_dependencies: c.0,
        },
        changed: a.2 || b.2 || c.2,
        diagnostics: a.1 + b.1 + c.1,
    }
}

/// Inlines one dependency section, appending rewritten records and
/// diagnostics to the given vectors.
fn inline_section(
    ws: &WorkspaceDeps,
    recs: &Vec<DepRecord>,
    root_dir: &str,
    crate_dir: &str,
    diagnostics: &mut Vec<Diagnostic>,
) -> (r: (Vec<DepRecord>, bool))
    ensures
        ({
            let s = spec_inline_section(ws@, recs.deep_view(), root_dir@, crate_dir@);
            r.0.deep_view() == s.0 && r.1 == s.2 && final(diagnostics).deep_view() == old(
                diagnostics,
            ).deep_view() + s.1
        }),
{
    let ghost rs = recs.deep_view();
    let ghost pre_diag = diagnostics.deep_view();
    let mut out: Vec<DepRecord> = Vec::new();
    let mut changed = false;
    let mut i: usize = 0;
    proof {
        assert(rs.skip(0) =~= rs);
    }
    while i < recs.len()
        invariant
            i <= recs.len(),
            rs == recs.deep_view(),
            rs.len() == recs.len(),
            ({
                let done = spec_inline_section(ws@, rs.take(i as int), root_dir@, crate_dir@);
                out.deep_view() == done.0 && changed == done.2 && diagnostics.deep_view()
                    == pre_diag + done.1
            }),
        decreases recs.len() - i,
    {
        let rec = &recs[i];
        let ghost done = spec_inline_section(ws@, rs.take(i as int), root_dir@, crate_dir@);
        let ghost step = spec_inline_record(ws@, rs[i as int], root_dir@, crate_dir@);
        if rec.entry.is_inherited() {
            match ws.find(rec.name.as_str()) {
                Some(ws_e) => {
                    let entry = inline_entry(ws_e, &rec.entry, root_dir, crate_dir);
                    out.push(DepRecord { name: rec.name.clone(), entry });
                    diagnostics.push(
                        Diagnostic::Updating {
                            name: rec.name.clone(),
                            location: relative_display(crate_dir, root_dir),
                        },
                    );
                    changed = true;
                },
                None => {
                    out.push(rec.duplicate());
                    diagnostics.push(Diagnostic::NotInWorkspace { name: rec.name.clone() });
                },
            }
        } else {
            out.push(rec.duplicate());
        }
        proof {
            lemma_inline_section_snoc(ws@, rs, i as int, root_dir@, crate_dir@);
            assert(out.deep_view() =~= done.0 + seq![step.0]);
            assert(diagnostics.deep_view() =~= (pre_diag + done.1) + step.1);
            assert((pre_diag + done.1) + step.1 =~= pre_diag + (done.1 + step.1));
        }
        i = i + 1;
    }
    proof {
        assert(rs.take(rs.len() as int) =~= rs);
    }
    (out, changed)
}

/// Processing one more record extends a section's outcome at the end.
proof fn lemma_inline_section_snoc(
    ws: Seq<DepRecordV>,
    recs: Seq<DepRecordV>,
    i: int,
    root_dir: Seq<char>,
    crate_dir: Seq<char>,
)
    requires
        0 <= i < recs.len(),
    ensures
        ({
            let done = spec_inline_section(ws, recs.take(i), root_dir, crate_dir);
            let next = spec_inline_section(ws, recs.take(i + 1), root_dir, crate_dir);
            let step = spec_inline_record(ws, recs[i], root_dir, crate_dir);
            next.0 == done.0 + seq![step.0] && next.1 == done.1 + step.1 && next.2 == (done.2
                || step.2)
        }),
    decreases i,
{
    let done = spec_inline_section(ws, recs.take(i), root_dir, crate_dir);
    let next = spec_inline_section(ws, recs.take(i + 1), root_dir, crate_dir);
    let step = spec_inline_record(ws, recs[i], root_dir, crate_dir);
    if i == 0 {
        assert(recs.take(0) =~= Seq::<DepRecordV>::empty());
        assert(recs.take(1)[0] == recs[0]);
        assert(recs.take(1).drop_first() =~= Seq::<DepRecordV>::empty());
        assert(next.0 =~= done.0 + seq![step.0]);
        assert(next.1 =~= done.1 + step.1);
    } else {
        let sub = recs.drop_first();
        assert(recs.take(i + 1)[0] == recs[0]);
        assert(recs.take(i)[0] == recs[0]);
        assert(recs.take(i + 1).drop_first() =~= sub.take(i));
        assert(recs.take(i).drop_first() =~= sub.take(i - 1));
        lemma_inline_section_snoc(ws, sub, i - 1, root_dir, crate_dir);
        assert(sub.take(i - 1 + 1) =~= sub.take(i));
        assert(sub[i - 1] == recs[i]);
        let h = spec_inline_record(ws, recs[0], root_dir, crate_dir);
        let done_sub = spec_inline_section(ws, sub.take(i - 1), root_dir, crate_dir);
        let next_sub = spec_inline_section(ws, sub.take(i), root_dir, crate_dir);
        assert(next.0 == seq![h.0] + next_sub.0);
        assert(done.0 == seq![h.0] + done_sub.0);
        assert(next.0 =~= done.0 + seq![step.0]);
        assert(next.1 =~= done.1 + step.1);
    }
}

/// Inlines every inherited entry of the package's three dependency
/// sections.  With no shared dependency table at all (`ws` is `None`) the
/// operation is a no-op, as there is nothing to inherit from.
pub fn unworkspaceify_deps(
    ws: Option<&WorkspaceDeps>,
    pkg: &PackageDeps,
    root_dir: &str,
    crate_dir: &str,
) -> (r: ReconcilePass)
    ensures
        match ws {
            Some(w) => r@ == spec_inline_manifest(w@, pkg@, root_dir@, crate_dir@),
            None => r.deps@ == pkg@ && r.changed == false && r.diagnostics@.len() == 0,
        },
{
    match ws {
        None => ReconcilePass {
            deps: duplicate_package(pkg),
            changed: false,
            diagnostics: Vec::new(),
        },
        Some(w) => {
            let mut diagnostics: Vec<Diagnostic> = Vec::new();
            let (dependencies, c1) = inline_section(
                w,
                &pkg.dependencies,
                root_dir,
                crate_dir,
                &mut diagnostics,
            );
            let (dev_dependencies, c2) = inline_section(
                w,
                &pkg.dev_dependencies,
                root_dir,
                crate_dir,
                &mut diagnostics,
            );
            let (build_dependencies, c3) = inline_section(
                w,
                &pkg.build_dependencies,
                root_dir,
                crate_dir,
                &mut diagnostics,
            );
            proof {
                let a = spec_inline_section(w@, pkg@.dependencies, root_dir@, crate_dir@);
                let b = spec_inline_section(w@, pkg@.dev_dependencies, root_dir@, crate_dir@);
                let c = spec_inline_section(w@, pkg@.build_dependencies, root_dir@, crate_dir@);
                assert(diagnostics.deep_view() =~= a.1 + b.1 + c.1);
            }
            ReconcilePass {
                deps: PackageDeps { dependencies, dev_dependencies, build_dependencies },
                changed: (c1 || c2) || c3,
                diagnostics,
            }
        },
    }
}

/// An exact copy of the three sections.
pub fn duplicate_package(pkg: &PackageDeps) -> (r: PackageDeps)
    ensures
        r@ == pkg@,
{
    let dependencies = duplicate_records(&pkg.dependencies);
    let dev_dependencies = duplicate_records(&pkg.dev_dependencies);
    let build_dependencies = duplicate_records(&pkg.build_dependencies);
    PackageDeps { dependencies, dev_dependencies, build_dependencies }
}

/// An exact copy of one section.
pub fn duplicate_records(recs: &Vec<DepRecord>) -> (r: Vec<DepRecord>)
    ensures
        r.deep_view() == recs.deep_view(),
{
    let mut out: Vec<DepRecord> = Vec::new();
    let mut i: usize = 0;
    while i < recs.len()
        invariant
            i <= recs.len(),
            out.deep_view() =~= recs.deep_view().take(i as int),
        decreases recs.len() - i,
    {
        let ghost pre = out.deep_view();
        out.push(recs[i].duplicate());
        proof {
            assert(out.deep_view() =~= pre.push(recs.deep_view()[i as int]));
            assert(out.deep_view() =~= recs.deep_view().take(i as int + 1));
        }
        i = i + 1;
    }
    proof {
        assert(out.deep_view() =~= recs.deep_view());
    }
    out
}

} // verus!
