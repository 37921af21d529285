//! The collapsing operation: rewriting a package's dependency table so that
//! every self-contained entry that is provably equivalent to the workspace's
//! shared declaration becomes an inherited reference in its most compact
//! form.
//!
//! Equivalence of `path` fields is judged against the file system: both
//! sides are resolved to canonical locations.  Those resolutions are taken
//! from a [`PathResolver`] snapshot, so that the whole decision pipeline is
//! a function of its inputs; [`workspaceify_deps`] builds the snapshot by
//! asking the file system once per path.

use vstd::prelude::*;

use crate::diag::Diagnostic;
use crate::diag::DiagnosticV;
use crate::inline::ReconcilePass;
use crate::inline::ReconcilePassV;
use crate::lock::LockFileVersions;
use crate::lock::LockRecordV;
use crate::model::DepEntry;
use crate::model::DepEntryV;
use crate::model::DepField;
use crate::model::DepFieldV;
use crate::model::DepRecord;
use crate::model::DepRecordV;
use crate::model::DepValue;
use crate::model::DepValueV;
use crate::model::PackageDeps;
use crate::model::PackageDepsV;
use crate::model::WorkspaceDeps;
use crate::model::spec_entry_value;
use crate::model::spec_is_inherited;
use crate::model::spec_lookup;
use crate::model::spec_path_of;
use crate::model::spec_promote;
use crate::model::spec_remove_field;
use crate::model::spec_set_field;
use crate::paths::canonicalize_path;
use crate::paths::path_is_relative;
use crate::paths::path_join;
use crate::paths::spec_is_absolute;
use crate::paths::spec_join;
use crate::text::str_eq;
use crate::versions::VersionDecision;
use crate::versions::spec_version_decision;
use crate::versions::version_decision;

verus! {

/// What the file system answered when one path was canonicalized: `None`
/// records a failure (a missing directory, a broken symlink, a non-UTF-8
/// canonical form).
#[derive(Debug, PartialEq, Eq)]
pub struct PathCanon {
    pub path: String,
    pub canonical: Option<String>,
}

/// The mathematical value of a [`PathCanon`].
pub struct PathCanonV {
    pub path: Seq<char>,
    pub canonical: Option<Seq<char>>,
}

impl View for PathCanon {
    type V = PathCanonV;

    open spec fn view(&self) -> PathCanonV {
        PathCanonV {
            path: self.path@,
            canonical: match &self.canonical {
                Some(c) => Some(c@),
                None => None,
            },
        }
    }
}

impl DeepView for PathCanon {
    type V = PathCanonV;

    open spec fn deep_view(&self) -> PathCanonV {
        self@
    }
}

/// A snapshot of canonicalization outcomes, queried by the exact path text.
#[derive(Debug, PartialEq, Eq)]
pub struct PathResolver {
    pub entries: Vec<PathCanon>,
}

impl View for PathResolver {
    type V = Seq<PathCanonV>;

    open spec fn view(&self) -> Seq<PathCanonV> {
        self.entries.deep_view()
    }
}

/// The canonical form recorded for a path; `None` both when the snapshot
/// has no record of the path and when it records a failure.
pub open spec fn spec_resolve(res: Seq<PathCanonV>, p: Seq<char>) -> Option<Seq<char>>
    decreases res.len(),
{
    if res.len() == 0 {
        None
    } else if res[0].path == p {
        res[0].canonical
    } else {
        spec_resolve(res.drop_first(), p)
    }
}

/// `spec_resolve` restricted to the suffix that starts at `from`.
pub open spec fn spec_resolve_from(res: Seq<PathCanonV>, p: Seq<char>, from: int) -> Option<
    Seq<char>,
>
    recommends
        0 <= from <= res.len(),
{
    spec_resolve(res.skip(from), p)
}

impl PathResolver {
    /// An empty snapshot: every lookup fails.
    pub fn new() -> (r: Self)
        ensures
            r@.len() == 0,
    {
        PathResolver { entries: Vec::new() }
    }

    /// The canonical form recorded for the given path.
    pub fn resolve<'a>(&'a self, p: &str) -> (r: Option<&'a String>)
        ensures
            match r {
                Some(c) => spec_resolve(self@, p@) == Some(c@),
                None => spec_resolve(self@, p@) is None,
            },
    {
        let ghost rs = self@;
        proof {
            assert(rs.skip(0) =~= rs);
        }
        let mut i: usize = 0;
        while i < self.entries.len()
            invariant
                i <= self.entries.len(),
                rs == self@,
                rs.len() == self.entries.len(),
                spec_resolve(rs, p@) == spec_resolve_from(rs, p@, i as int),
            decreases self.entries.len() - i,
        {
            if str_eq(self.entries[i].path.as_str(), p) {
                proof {
                    assert(rs.skip(i as int)[0] == rs[i as int]);
                }
                return match &self.entries[i].canonical {
                    Some(c) => Some(c),
                    None => None,
                };
            }
            proof {
                assert(rs.skip(i as int)[0] == rs[i as int]);
                assert(rs.skip(i as int).drop_first() =~= rs.skip(i as int + 1));
            }
            i = i + 1;
        }
        proof {
            assert(rs.skip(rs.len() as int) =~= Seq::<PathCanonV>::empty());
        }
        None
    }
}

/// The absolute form of a `path` field: a relative path is resolved against
/// the directory of the manifest that declares it.
pub open spec fn spec_abs_of(dir: Seq<char>, p: Seq<char>) -> Seq<char> {
    if spec_is_absolute(p) {
        p
    } else {
        spec_join(dir, p)
    }
}

/// What the path equivalence check concluded.
pub enum PathVerdict {
    /// Either neither side declares a path, or both resolve to the same
    /// canonical location.
    Equivalent,
    /// Only one side declares a path, or the two canonical locations
    /// differ.
    Mismatch,
    /// A path could not be canonicalized; the whole operation must abort.
    Failed(String),
}

/// The mathematical value of a [`PathVerdict`].
pub enum PathVerdictV {
    Equivalent,
    Mismatch,
    Failed(Seq<char>),
}

impl View for PathVerdict {
    type V = PathVerdictV;

    open spec fn view(&self) -> PathVerdictV {
        match self {
            PathVerdict::Equivalent => PathVerdictV::Equivalent,
            PathVerdict::Mismatch => PathVerdictV::Mismatch,
            PathVerdict::Failed(p) => PathVerdictV::Failed(p@),
        }
    }
}

/// The path equivalence check for one entry: vacuously equivalent with no
/// path on either side; a mismatch when only one side declares a path;
/// otherwise both paths are resolved to canonical locations, which must be
/// identical.  A canonicalization failure fails the whole operation; the
/// workspace side is resolved first.
pub open spec fn spec_path_check(
    ws_e: DepEntryV,
    crate_e: DepEntryV,
    root_dir: Seq<char>,
    crate_dir: Seq<char>,
    res: Seq<PathCanonV>,
) -> PathVerdictV {
    match (spec_path_of(ws_e), spec_path_of(crate_e)) {
        (None, None) => PathVerdictV::Equivalent,
        (Some(wp), Some(cp)) => {
            let wa = spec_abs_of(root_dir, wp);
            let ca = spec_abs_of(crate_dir, cp);
            match spec_resolve(res, wa) {
                None => PathVerdictV::Failed(wa),
                Some(wc) => match spec_resolve(res, ca) {
                    None => PathVerdictV::Failed(ca),
                    Some(cc) => if wc == cc {
                        PathVerdictV::Equivalent
                    } else {
                        PathVerdictV::Mismatch
                    },
                },
            }
        },
        _ => PathVerdictV::Mismatch,
    }
}

/// The absolute form of a `path` field (see [`spec_abs_of`]).
fn abs_of(dir: &str, p: &str) -> (r: String)
    ensures
        r@ == spec_abs_of(dir@, p@),
{
    if path_is_relative(p) {
        path_join(dir, p)
    } else {
        String::from_str(p)
    }
}

/// The path equivalence check (see [`spec_path_check`]).
pub fn path_check(
    ws_e: &DepEntry,
    crate_e: &DepEntry,
    root_dir: &str,
    crate_dir: &str,
    resolver: &PathResolver,
) -> (r: PathVerdict)
    ensures
        r@ == spec_path_check(ws_e@, crate_e@, root_dir@, crate_dir@, resolver@),
{
    match (ws_e.path_of(), crate_e.path_of()) {
        (None, None) => PathVerdict::Equivalent,
        (Some(wp), Some(cp)) => {
            let wa = abs_of(root_dir, wp.as_str());
            let ca = abs_of(crate_dir, cp.as_str());
            match resolver.resolve(wa.as_str()) {
                None => PathVerdict::Failed(wa),
                Some(wc) => {
                    let wc_txt = wc.clone();
                    match resolver.resolve(ca.as_str()) {
                        None => PathVerdict::Failed(ca),
                        Some(cc) => if str_eq(wc_txt.as_str(), cc.as_str()) {
                            PathVerdict::Equivalent
                        } else {
                            PathVerdict::Mismatch
                        },
                    }
                },
            }
        },
        _ => PathVerdict::Mismatch,
    }
}

/// Whether the table minimizer keeps a field: the package-local `optional`
/// flag and the inherited marker always stay; any other field stays only if
/// its value differs from the workspace's corresponding field.
pub open spec fn spec_keep_field(ws_e: DepEntryV, f: DepFieldV) -> bool {
    f.key == "optional"@ || f.key == "workspace"@ || spec_entry_value(ws_e, f.key) != Some(f.value)
}

/// The table minimizer: drops, in place, every field whose value is
/// textually identical to the workspace's corresponding field.
pub open spec fn spec_minimized(ws_e: DepEntryV, fields: Seq<DepFieldV>) -> Seq<DepFieldV>
    decreases fields.len(),
{
    if fields.len() == 0 {
        Seq::<DepFieldV>::empty()
    } else {
        let rest = spec_minimized(ws_e, fields.drop_first());
        if spec_keep_field(ws_e, fields[0]) {
            seq![fields[0]] + rest
        } else {
            rest
        }
    }
}

/// The minimizer never drops a field the keep-predicate always keeps: the
/// value found under `optional` or `workspace` is unchanged.
pub proof fn lemma_value_minimized(ws_e: DepEntryV, fields: Seq<DepFieldV>, key: Seq<char>)
    requires
        key == "optional"@ || key == "workspace"@,
    ensures
        crate::model::spec_field_value(spec_minimized(ws_e, fields), key)
            == crate::model::spec_field_value(fields, key),
    decreases fields.len(),
{
    if fields.len() == 0 {
    } else {
        let f = fields[0];
        let rest = spec_minimized(ws_e, fields.drop_first());
        lemma_value_minimized(ws_e, fields.drop_first(), key);
        if spec_keep_field(ws_e, f) {
            let m = spec_minimized(ws_e, fields);
            assert(m == seq![f] + rest);
            assert(m.len() > 0);
            assert(m[0] == f);
            assert(m.drop_first() =~= rest);
            if f.key == key {
                assert(crate::model::spec_field_value(m, key) == Some(f.value));
                assert(crate::model::spec_field_value(fields, key) == Some(f.value));
            } else {
                assert(crate::model::spec_field_value(m, key)
                    == crate::model::spec_field_value(rest, key));
                assert(crate::model::spec_field_value(fields, key)
                    == crate::model::spec_field_value(fields.drop_first(), key));
            }
        } else {
            assert(f.key != key);
            assert(crate::model::spec_field_value(fields, key)
                == crate::model::spec_field_value(fields.drop_first(), key));
        }
    }
}

/// Rewriting one collapsible entry to inherited form: the entry is promoted
/// to table form, gains the inherited marker, loses its own `version` and
/// `path` (the workspace now supplies them), loses every remaining field
/// that merely repeats the workspace's value, and is rendered in the most
/// compact form when only the marker remains.
pub open spec fn spec_collapse_rewrite(ws_e: DepEntryV, crate_e: DepEntryV) -> DepEntryV {
    let t = spec_remove_field(
        spec_remove_field(
            spec_set_field(spec_promote(crate_e), "workspace"@, DepValueV::Flag(true)),
            "version"@,
        ),
        "path"@,
    );
    match t {
        DepEntryV::Table { compact, fields } => {
            let kept = spec_minimized(ws_e, fields);
            DepEntryV::Table {
                compact: if kept.len() == 1 {
                    true
                } else {
                    compact
                },
                fields: kept,
            }
        },
        t2 => t2,
    }
}

/// The table minimizer (see [`spec_minimized`]).
fn minimize_fields(ws_e: &DepEntry, fields: Vec<DepField>) -> (r: Vec<DepField>)
    ensures
        r.deep_view() == spec_minimized(ws_e@, fields.deep_view()),
{
    let ghost fs = fields.deep_view();
    proof {
        assert(fs.skip(0) =~= fs);
    }
    let mut out: Vec<DepField> = Vec::new();
    let mut i: usize = 0;
    while i < fields.len()
        invariant
            i <= fields.len(),
            fs == fields.deep_view(),
            fs.len() == fields.len(),
            spec_minimized(ws_e@, fs) =~= out.deep_view() + spec_minimized(
                ws_e@,
                fs.skip(i as int),
            ),
        decreases fields.len() - i,
    {
        let f = &fields[i];
        let keep = str_eq(f.key.as_str(), "optional") || str_eq(f.key.as_str(), "workspace") || (
        match ws_e.field_value(f.key.as_str()) {
            Some(v) => !v.same_as(&f.value),
            None => true,
        });
        proof {
            assert(fs.skip(i as int)[0] == fs[i as int]);
            assert(fs.skip(i as int).drop_first() =~= fs.skip(i as int + 1));
            assert(keep == spec_keep_field(ws_e@, fs[i as int]));
        }
        if keep {
            let ghost pre = out.deep_view();
            out.push(f.duplicate());
            proof {
                assert(out.deep_view() =~= pre.push(fs[i as int]));
                assert(out.deep_view() + spec_minimized(ws_e@, fs.skip(i as int + 1)) =~= pre + (
                seq![fs[i as int]] + spec_minimized(ws_e@, fs.skip(i as int + 1))));
            }
        }
        i = i + 1;
    }
    proof {
        assert(fs.skip(fs.len() as int) =~= Seq::<DepFieldV>::empty());
        assert(out.deep_view() + Seq::<DepFieldV>::empty() =~= out.deep_view());
    }
    out
}

/// Rewrites one collapsible entry to its inherited form (see
/// [`spec_collapse_rewrite`]).
pub fn collapse_rewrite(ws_e: &DepEntry, crate_e: &DepEntry) -> (r: DepEntry)
    ensures
        r@ == spec_collapse_rewrite(ws_e@, crate_e@),
{
    let t = crate_e.duplicate().promote().set_field(
        "workspace",
        DepValue::Flag(true),
    ).remove_field("version").remove_field("path");
    match t {
        DepEntry::Table { compact, fields } => {
            let kept = minimize_fields(ws_e, fields);
            let compact2 = if kept.len() == 1 {
                true
            } else {
                compact
            };
            DepEntry::Table { compact: compact2, fields: kept }
        },
        b => b,
    }
}

/// What collapsing did to one record.
pub enum CollapseStepV {
    /// Left untouched without a word: the name is not in the workspace's
    /// table, or the entry is already inherited.
    Silent,
    /// Skipped with a version-mismatch warning.
    SkipVersion,
    /// Skipped with a no-version warning.
    SkipNoVersion,
    /// Skipped with a path-mismatch warning.
    SkipPath,
    /// A path could not be canonicalized; the operation aborts.
    Failed(Seq<char>),
    /// Rewritten to the inherited form.
    Rewritten(DepEntryV),
}

/// The decision pipeline for one record: nothing happens for names the
/// workspace does not offer and for entries that are already inherited;
/// then the version reconciler and the path check decide, in that order.
pub open spec fn spec_collapse_step(
    ws: Seq<DepRecordV>,
    rec: DepRecordV,
    lock: Seq<LockRecordV>,
    res: Seq<PathCanonV>,
    root_dir: Seq<char>,
    crate_dir: Seq<char>,
) -> CollapseStepV {
    match spec_lookup(ws, rec.name) {
        None => CollapseStepV::Silent,
        Some(ws_e) => if spec_is_inherited(rec.entry) {
            CollapseStepV::Silent
        } else {
            match spec_version_decision(ws_e, rec.entry, rec.name, lock) {
                VersionDecision::Mismatch => CollapseStepV::SkipVersion,
                VersionDecision::OneSided => CollapseStepV::SkipNoVersion,
                _ => match spec_path_check(ws_e, rec.entry, root_dir, crate_dir, res) {
                    PathVerdictV::Failed(p) => CollapseStepV::Failed(p),
                    PathVerdictV::Mismatch => CollapseStepV::SkipPath,
                    PathVerdictV::Equivalent => CollapseStepV::Rewritten(
                        spec_collapse_rewrite(ws_e, rec.entry),
                    ),
                },
            }
        },
    }
}

/// The record, diagnostics and changed flag one non-failing step yields.
pub open spec fn spec_step_outcome(rec: DepRecordV, step: CollapseStepV) -> (
    DepRecordV,
    Seq<DiagnosticV>,
    bool,
) {
    match step {
        CollapseStepV::Silent => (rec, Seq::<DiagnosticV>::empty(), false),
        CollapseStepV::SkipVersion => (
            rec,
            seq![DiagnosticV::VersionMismatch { name: rec.name }],
            false,
        ),
        CollapseStepV::SkipNoVersion => (
            rec,
            seq![DiagnosticV::NoVersionSkip { name: rec.name }],
            false,
        ),
        CollapseStepV::SkipPath => (rec, seq![DiagnosticV::PathMismatch { name: rec.name }], false),
        CollapseStepV::Failed(_) => (rec, Seq::<DiagnosticV>::empty(), false),
        CollapseStepV::Rewritten(e) => (
            DepRecordV { name: rec.name, entry: e },
            Seq::<DiagnosticV>::empty(),
            true,
        ),
    }
}

/// Collapsing over a whole dependency section, in order.  `Err` carries the
/// path that failed to canonicalize and the diagnostics already emitted.
pub open spec fn spec_collapse_section(
    ws: Seq<DepRecordV>,
    recs: Seq<DepRecordV>,
    lock: Seq<LockRecordV>,
    res: Seq<PathCanonV>,
    root_dir: Seq<char>,
    crate_dir: Seq<char>,
) -> Result<(Seq<DepRecordV>, Seq<DiagnosticV>, bool), (Seq<char>, Seq<DiagnosticV>)>
    decreases recs.len(),
{
    if recs.len() == 0 {
        Ok((Seq::<DepRecordV>::empty(), Seq::<DiagnosticV>::empty(), false))
    } else {
        match spec_collapse_step(ws, recs[0], lock, res, root_dir, crate_dir) {
            CollapseStepV::Failed(p) => Err((p, Seq::<DiagnosticV>::empty())),
            st => {
                let h = spec_step_outcome(recs[0], st);
                match spec_collapse_section(ws, recs.drop_first(), lock, res, root_dir, crate_dir) {
                    Ok(t) => Ok((seq![h.0] + t.0, h.1 + t.1, h.2 || t.2)),
                    Err(e) => Err((e.0, h.1 + e.1)),
                }
            },
        }
    }
}

/// Appending one more non-failing record extends a section's outcome at
/// the end.
proof fn lemma_collapse_section_snoc(
    ws: Seq<DepRecordV>,
    recs: Seq<DepRecordV>,
    i: int,
    lock: Seq<LockRecordV>,
    res: Seq<PathCanonV>,
    root_dir: Seq<char>,
    crate_dir: Seq<char>,
)
    requires
        0 <= i < recs.len(),
        spec_collapse_section(ws, recs.take(i), lock, res, root_dir, crate_dir) is Ok,
        !(spec_collapse_step(ws, recs[i], lock, res, root_dir, crate_dir) is Failed),
    ensures
        ({
            let done = spec_collapse_section(ws, recs.take(i), lock, res, root_dir, crate_dir)
                ->Ok_0;
            let step = spec_collapse_step(ws, recs[i], lock, res, root_dir, crate_dir);
            let h = spec_step_outcome(recs[i], step);
            spec_collapse_section(ws, recs.take(i + 1), lock, res, root_dir, crate_dir) == Ok::<
                _,
                (Seq<char>, Seq<DiagnosticV>),
            >((done.0 + seq![h.0], done.1 + h.1, done.2 || h.2))
        }),
    decreases i,
{
    let done = spec_collapse_section(ws, recs.take(i), lock, res, root_dir, crate_dir)->Ok_0;
    let step = spec_collapse_step(ws, recs[i], lock, res, root_dir, crate_dir);
    let h = spec_step_outcome(recs[i], step);
    if i == 0 {
        assert(recs.take(0) =~= Seq::<DepRecordV>::empty());
        assert(recs.take(1)[0] == recs[0]);
        assert(recs.take(1).drop_first() =~= Seq::<DepRecordV>::empty());
        assert(done.0 + seq![h.0] =~= seq![h.0] + Seq::<DepRecordV>::empty());
        assert(done.1 + h.1 =~= h.1 + Seq::<DiagnosticV>::empty());
    } else {
        let sub = recs.drop_first();
        assert(recs.take(i + 1)[0] == recs[0]);
        assert(recs.take(i)[0] == recs[0]);
        assert(recs.take(i + 1).drop_first() =~= sub.take(i));
        assert(recs.take(i).drop_first() =~= sub.take(i - 1));
        let step0 = spec_collapse_step(ws, recs[0], lock, res, root_dir, crate_dir);
        assert(!(step0 is Failed));
        let h0 = spec_step_outcome(recs[0], step0);
        assert(spec_collapse_section(ws, sub.take(i - 1), lock, res, root_dir, crate_dir) is Ok);
        lemma_collapse_section_snoc(ws, sub, i - 1, lock, res, root_dir, crate_dir);
        assert(sub.take(i - 1 + 1) =~= sub.take(i));
        assert(sub[i - 1] == recs[i]);
        let done_sub = spec_collapse_section(ws, sub.take(i - 1), lock, res, root_dir, crate_dir)
            ->Ok_0;
        let next_sub = spec_collapse_section(ws, sub.take(i), lock, res, root_dir, crate_dir)
            ->Ok_0;
        assert(next_sub.0 == done_sub.0 + seq![h.0]);
        assert(done.0 == seq![h0.0] + done_sub.0);
        assert(seq![h0.0] + (done_sub.0 + seq![h.0]) =~= done.0 + seq![h.0]);
        assert(seq![h0.0] + next_sub.0 =~= done.0 + seq![h.0]);
        assert(h0.1 + (done_sub.1 + h.1) =~= done.1 + h.1);
        assert(h0.1 + next_sub.1 =~= done.1 + h.1);
    }
}

/// A failing record turns the whole section's outcome into the failure,
/// carrying the diagnostics emitted before it.
proof fn lemma_collapse_section_fail(
    ws: Seq<DepRecordV>,
    recs: Seq<DepRecordV>,
    i: int,
    lock: Seq<LockRecordV>,
    res: Seq<PathCanonV>,
    root_dir: Seq<char>,
    crate_dir: Seq<char>,
)
    requires
        0 <= i < recs.len(),
        spec_collapse_section(ws, recs.take(i), lock, res, root_dir, crate_dir) is Ok,
        spec_collapse_step(ws, recs[i], lock, res, root_dir, crate_dir) is Failed,
    ensures
        ({
            let done = spec_collapse_section(ws, recs.take(i), lock, res, root_dir, crate_dir)
                ->Ok_0;
            let p = spec_collapse_step(ws, recs[i], lock, res, root_dir, crate_dir)->Failed_0;
            spec_collapse_section(ws, recs, lock, res, root_dir, crate_dir) == Err::<
                (Seq<DepRecordV>, Seq<DiagnosticV>, bool),
                _,
            >((p, done.1))
        }),
    decreases i,
{
    let done = spec_collapse_section(ws, recs.take(i), lock, res, root_dir, crate_dir)->Ok_0;
    let p = spec_collapse_step(ws, recs[i], lock, res, root_dir, crate_dir)->Failed_0;
    if i == 0 {
        assert(recs.take(0) =~= Seq::<DepRecordV>::empty());
        assert(done.1 =~= Seq::<DiagnosticV>::empty());
    } else {
        let sub = recs.drop_first();
        assert(recs.take(i)[0] == recs[0]);
        assert(recs.take(i).drop_first() =~= sub.take(i - 1));
        let step0 = spec_collapse_step(ws, recs[0], lock, res, root_dir, crate_dir);
        assert(!(step0 is Failed));
        let h0 = spec_step_outcome(recs[0], step0);
        assert(spec_collapse_section(ws, sub.take(i - 1), lock, res, root_dir, crate_dir) is Ok);
        assert(sub[i - 1] == recs[i]);
        lemma_collapse_section_fail(ws, sub, i - 1, lock, res, root_dir, crate_dir);
        let done_sub = spec_collapse_section(ws, sub.take(i - 1), lock, res, root_dir, crate_dir)
            ->Ok_0;
        assert(done.1 =~= h0.1 + done_sub.1);
    }
}

/// A fatal failure of the collapsing operation: a path that could not be
/// canonicalized, with the diagnostics emitted before the failure.
#[derive(Debug, PartialEq, Eq)]
pub struct ReconcileError {
    pub path: String,
    pub diagnostics: Vec<Diagnostic>,
}

/// The mathematical value of a [`ReconcileError`].
pub struct ReconcileErrorV {
    pub path: Seq<char>,
    pub diagnostics: Seq<DiagnosticV>,
}

impl View for ReconcileError {
    type V = ReconcileErrorV;

    open spec fn view(&self) -> ReconcileErrorV {
        ReconcileErrorV { path: self.path@, diagnostics: self.diagnostics.deep_view() }
    }
}

/// Collapses one dependency section, appending rewritten records and
/// diagnostics to the given vectors; `Err` carries the failing path, with
/// the diagnostics of the aborted pass left in `diagnostics`.
fn collapse_section(
    ws: &WorkspaceDeps,
    recs: &Vec<DepRecord>,
    lock: &LockFileVersions,
    resolver: &PathResolver,
    root_dir: &str,
    crate_dir: &str,
    diagnostics: &mut Vec<Diagnostic>,
) -> (r: Result<(Vec<DepRecord>, bool), String>)
    ensures
        ({
            let s = spec_collapse_section(
                ws@,
                recs.deep_view(),
                lock@,
                resolver@,
                root_dir@,
                crate_dir@,
            );
            match r {
                Ok(p) => s is Ok && p.0.deep_view() == s->Ok_0.0 && p.1 == s->Ok_0.2
                    && final(diagnostics).deep_view() == old(diagnostics).deep_view() + s->Ok_0.1,
                Err(path) => s is Err && path@ == s->Err_0.0 && final(diagnostics).deep_view()
                    == old(diagnostics).deep_view() + s->Err_0.1,
            }
        }),
{
    let ghost rs = recs.deep_view();
    let ghost pre_diag = diagnostics.deep_view();
    let mut out: Vec<DepRecord> = Vec::new();
    let mut changed = false;
    let ghost mut ddelta = Seq::<DiagnosticV>::empty();
    let mut i: usize = 0;
    proof {
        assert(rs.take(0) =~= Seq::<DepRecordV>::empty());
        assert(out.deep_view() =~= Seq::<DepRecordV>::empty());
        assert(pre_diag + ddelta =~= pre_diag);
    }
    while i < recs.len()
        invariant
            i <= recs.len(),
            rs == recs.deep_view(),
            rs.len() == recs.len(),
            pre_diag == old(diagnostics).deep_view(),
            diagnostics.deep_view() == pre_diag + ddelta,
            spec_collapse_section(ws@, rs.take(i as int), lock@, resolver@, root_dir@, crate_dir@)
                == Ok::<_, (Seq<char>, Seq<DiagnosticV>)>((out.deep_view(), ddelta, changed)),
        decreases recs.len() - i,
    {
        let rec = &recs[i];
        let ghost step = spec_collapse_step(ws@, rs[i as int], lock@, resolver@, root_dir@,
        crate_dir@);
        let ghost out0 = out.deep_view();
        let ghost d0 = ddelta;
        let ghost c0 = changed;
        match ws.find(rec.name.as_str()) {
            None => {
                out.push(rec.duplicate());
            },
            Some(ws_e) => {
                if rec.entry.is_inherited() {
                    out.push(rec.duplicate());
                } else {
                    match version_decision(ws_e, &rec.entry, rec.name.as_str(), lock) {
                        VersionDecision::Mismatch => {
                            out.push(rec.duplicate());
                            diagnostics.push(
                                Diagnostic::VersionMismatch { name: rec.name.clone() },
                            );
                        },
                        VersionDecision::OneSided => {
                            out.push(rec.duplicate());
                            diagnostics.push(Diagnostic::NoVersionSkip { name: rec.name.clone() });
                        },
                        _ => {
                            match path_check(ws_e, &rec.entry, root_dir, crate_dir, resolver) {
                                PathVerdict::Failed(p) => {
                                    proof {
                                        assert(step == CollapseStepV::Failed(p@));
                                        lemma_collapse_section_fail(
                                            ws@,
                                            rs,
                                            i as int,
                                            lock@,
                                            resolver@,
                                            root_dir@,
                                            crate_dir@,
                                        );
                                    }
                                    return Err(p);
                                },
                                PathVerdict::Mismatch => {
                                    out.push(rec.duplicate());
                                    diagnostics.push(
                                        Diagnostic::PathMismatch { name: rec.name.clone() },
                                    );
                                },
                                PathVerdict::Equivalent => {
                                    out.push(
                                        DepRecord {
                                            name: rec.name.clone(),
                                            entry: collapse_rewrite(ws_e, &rec.entry),
                                        },
                                    );
                                    changed = true;
                                },
                            }
                        },
                    }
                }
            },
        }
        proof {
            let h = spec_step_outcome(rs[i as int], step);
            lemma_collapse_section_snoc(ws@, rs, i as int, lock@, resolver@, root_dir@, crate_dir@);
            assert(out.deep_view() =~= out0 + seq![h.0]);
            assert(diagnostics.deep_view() =~= (pre_diag + d0) + h.1);
            assert((pre_diag + d0) + h.1 =~= pre_diag + (d0 + h.1));
            ddelta = d0 + h.1;
            assert(changed == (c0 || h.2));
        }
        i = i + 1;
    }
    proof {
        assert(rs.take(rs.len() as int) =~= rs);
    }
    Ok((out, changed))
}

/// Collapsing over the three dependency sections, in manifest order; the
/// first canonicalization failure aborts the whole operation.
pub open spec fn spec_collapse_manifest(
    ws: Seq<DepRecordV>,
    pkg: PackageDepsV,
    lock: Seq<LockRecordV>,
    res: Seq<PathCanonV>,
    root_dir: Seq<char>,
    crate_dir: Seq<char>,
) -> Result<ReconcilePassV, (Seq<char>, Seq<DiagnosticV>)> {
    match spec_collapse_section(ws, pkg.dependencies, lock, res, root_dir, crate_dir) {
        Err(e) => Err(e),
        Ok(a) => match spec_collapse_section(ws, pkg.dev_dependencies, lock, res, root_dir,
        crate_dir) {
            Err(e) => Err((e.0, a.1 + e.1)),
            Ok(b) => match spec_collapse_section(
                ws,
                pkg.build_dependencies,
                lock,
                res,
                root_dir,
                crate_dir,
            ) {
                Err(e) => Err((e.0, a.1 + b.1 + e.1)),
                Ok(c) => Ok(
                    ReconcilePassV {
                        deps: PackageDepsV {
                            dependencies: a.0,
                            dev_dependencies: b.0,
                            build_dependencies: c.0,
                        },
                        changed: a.2 || b.2 || c.2,
                        diagnostics: a.1 + b.1 + c.1,
                    },
                ),
            },
        },
    }
}

/// Collapses every provably equivalent entry of the package's three
/// dependency sections, judging path equivalence against the given
/// canonicalization snapshot.
pub fn collapse_with(
    ws: &WorkspaceDeps,
    pkg: &PackageDeps,
    lock: &LockFileVersions,
    resolver: &PathResolver,
    root_dir: &str,
    crate_dir: &str,
) -> (r: Result<ReconcilePass, ReconcileError>)
    ensures
        ({
            let s = spec_collapse_manifest(ws@, pkg@, lock@, resolver@, root_dir@, crate_dir@);
            match r {
                Ok(p) => s == Ok::<_, (Seq<char>, Seq<DiagnosticV>)>(p@),
                Err(e) => s == Err::<ReconcilePassV, _>((e@.path, e@.diagnostics)),
            }
        }),
{
    let mut diagnostics: Vec<Diagnostic> = Vec::new();
    let r1 = collapse_section(
        ws,
        &pkg.dependencies,
        lock,
        resolver,
        root_dir,
        crate_dir,
        &mut diagnostics,
    );
    match r1 {
        Err(path) => Err(ReconcileError { path, diagnostics }),
        Ok((dependencies, c1)) => {
            let r2 = collapse_section(
                ws,
                &pkg.dev_dependencies,
                lock,
                resolver,
                root_dir,
                crate_dir,
                &mut diagnostics,
            );
            match r2 {
                Err(path) => Err(ReconcileError { path, diagnostics }),
                Ok((dev_dependencies, c2)) => {
                    let r3 = collapse_section(
                        ws,
                        &pkg.build_dependencies,
                        lock,
                        resolver,
                        root_dir,
                        crate_dir,
                        &mut diagnostics,
                    );
                    match r3 {
                        Err(path) => Err(ReconcileError { path, diagnostics }),
                        Ok((build_dependencies, c3)) => {
                            proof {
                                let a = spec_collapse_section(ws@, pkg@.dependencies, lock@,
                                resolver@, root_dir@, crate_dir@);
                                let b = spec_collapse_section(ws@, pkg@.dev_dependencies, lock@,
                                resolver@, root_dir@, crate_dir@);
                                let c = spec_collapse_section(ws@, pkg@.build_dependencies, lock@,
                                resolver@, root_dir@, crate_dir@);
                                assert(diagnostics.deep_view() =~= a->Ok_0.1 + b->Ok_0.1
                                    + c->Ok_0.1);
                            }
                            Ok(
                                ReconcilePass {
                                    deps: PackageDeps {
                                        dependencies,
                                        dev_dependencies,
                                        build_dependencies,
                                    },
                                    changed: (c1 || c2) || c3,
                                    diagnostics,
                                },
                            )
                        },
                    }
                },
            }
        },
    }
}

/// Whether the result of [`workspaceify_deps`] is what collapsing yields
/// under the given canonicalization snapshot.
pub open spec fn spec_collapse_outcome_matches(
    ws: Seq<DepRecordV>,
    pkg: PackageDepsV,
    lock: Seq<LockRecordV>,
    res: Seq<PathCanonV>,
    root_dir: Seq<char>,
    crate_dir: Seq<char>,
    r: &Result<ReconcilePass, ReconcileError>,
) -> bool {
    let s = spec_collapse_manifest(ws, pkg, lock, res, root_dir, crate_dir);
    match r {
        Ok(p) => s == Ok::<_, (Seq<char>, Seq<DiagnosticV>)>(p@),
        Err(e) => s == Err::<ReconcilePassV, _>((e@.path, e@.diagnostics)),
    }
}

/// The paths one record's equivalence check compares, in order: the
/// workspace side first, then the package side; nothing for a record the
/// pipeline passes over silently or without a path check.
pub open spec fn spec_record_query_paths(
    ws: Seq<DepRecordV>,
    rec: DepRecordV,
    root_dir: Seq<char>,
    crate_dir: Seq<char>,
) -> Seq<Seq<char>> {
    match spec_lookup(ws, rec.name) {
        None => Seq::<Seq<char>>::empty(),
        Some(ws_e) => if spec_is_inherited(rec.entry) {
            Seq::<Seq<char>>::empty()
        } else {
            match (spec_path_of(ws_e), spec_path_of(rec.entry)) {
                (Some(wp), Some(cp)) => seq![
                    spec_abs_of(root_dir, wp),
                    spec_abs_of(crate_dir, cp),
                ],
                _ => Seq::<Seq<char>>::empty(),
            }
        },
    }
}

/// The paths a whole section's checks compare, in order.
pub open spec fn spec_section_query_paths(
    ws: Seq<DepRecordV>,
    recs: Seq<DepRecordV>,
    root_dir: Seq<char>,
    crate_dir: Seq<char>,
) -> Seq<Seq<char>>
    decreases recs.len(),
{
    if recs.len() == 0 {
        Seq::<Seq<char>>::empty()
    } else {
        spec_record_query_paths(ws, recs[0], root_dir, crate_dir) + spec_section_query_paths(
            ws,
            recs.drop_first(),
            root_dir,
            crate_dir,
        )
    }
}

/// The paths the three sections' checks compare, in manifest order.
pub open spec fn spec_manifest_query_paths(
    ws: Seq<DepRecordV>,
    pkg: PackageDepsV,
    root_dir: Seq<char>,
    crate_dir: Seq<char>,
) -> Seq<Seq<char>> {
    spec_section_query_paths(ws, pkg.dependencies, root_dir, crate_dir)
        + spec_section_query_paths(ws, pkg.dev_dependencies, root_dir, crate_dir)
        + spec_section_query_paths(ws, pkg.build_dependencies, root_dir, crate_dir)
}

/// The path texts a snapshot holds, in order.
pub open spec fn spec_resolver_paths(res: Seq<PathCanonV>) -> Seq<Seq<char>>
    decreases res.len(),
{
    if res.len() == 0 {
        Seq::<Seq<char>>::empty()
    } else {
        seq![res[0].path] + spec_resolver_paths(res.drop_first())
    }
}

/// Appending a record to a snapshot appends its path.
proof fn lemma_resolver_paths_push(res: Seq<PathCanonV>, e: PathCanonV)
    ensures
        spec_resolver_paths(res.push(e)) == spec_resolver_paths(res) + seq![e.path],
    decreases res.len(),
{
    let s = res.push(e);
    assert(s.len() > 0);
    if res.len() == 0 {
        assert(s[0] == e);
        assert(s.drop_first() =~= Seq::<PathCanonV>::empty());
        assert(spec_resolver_paths(Seq::<PathCanonV>::empty()) =~= Seq::<Seq<char>>::empty());
        assert(spec_resolver_paths(s) =~= spec_resolver_paths(res) + seq![e.path]);
    } else {
        lemma_resolver_paths_push(res.drop_first(), e);
        assert(s[0] == res[0]);
        assert(s.drop_first() =~= res.drop_first().push(e));
        assert(seq![res[0].path] + (spec_resolver_paths(res.drop_first()) + seq![e.path])
            =~= spec_resolver_paths(res) + seq![e.path]);
    }
}

/// Querying one more record extends a section's query paths at the end.
proof fn lemma_section_query_paths_snoc(
    ws: Seq<DepRecordV>,
    recs: Seq<DepRecordV>,
    i: int,
    root_dir: Seq<char>,
    crate_dir: Seq<char>,
)
    requires
        0 <= i < recs.len(),
    ensures
        spec_section_query_paths(ws, recs.take(i + 1), root_dir, crate_dir)
            == spec_section_query_paths(ws, recs.take(i), root_dir, crate_dir)
            + spec_record_query_paths(ws, recs[i], root_dir, crate_dir),
    decreases i,
{
    let q = spec_record_query_paths(ws, recs[i], root_dir, crate_dir);
    if i == 0 {
        assert(recs.take(0) =~= Seq::<DepRecordV>::empty());
        assert(recs.take(1)[0] == recs[0]);
        assert(recs.take(1).drop_first() =~= Seq::<DepRecordV>::empty());
        assert(spec_section_query_paths(ws, Seq::<DepRecordV>::empty(), root_dir, crate_dir)
            =~= Seq::<Seq<char>>::empty());
        assert(spec_section_query_paths(ws, recs.take(1), root_dir, crate_dir) =~= Seq::<
            Seq<char>,
        >::empty() + q);
    } else {
        let sub = recs.drop_first();
        assert(recs.take(i + 1)[0] == recs[0]);
        assert(recs.take(i)[0] == recs[0]);
        assert(recs.take(i + 1).drop_first() =~= sub.take(i));
        assert(recs.take(i).drop_first() =~= sub.take(i - 1));
        lemma_section_query_paths_snoc(ws, sub, i - 1, root_dir, crate_dir);
        assert(sub.take(i - 1 + 1) =~= sub.take(i));
        assert(sub[i - 1] == recs[i]);
        let q0 = spec_record_query_paths(ws, recs[0], root_dir, crate_dir);
        let done_sub = spec_section_query_paths(ws, sub.take(i - 1), root_dir, crate_dir);
        assert(q0 + (done_sub + q) =~= (q0 + done_sub) + q);
    }
}

/// Asks the file system for the canonical form of exactly the paths the
/// section's equivalence checks compare, in order, and records whatever it
/// answered.
fn add_section_paths(
    ws: &WorkspaceDeps,
    recs: &Vec<DepRecord>,
    root_dir: &str,
    crate_dir: &str,
    entries: &mut Vec<PathCanon>,
)
    ensures
        spec_resolver_paths(final(entries).deep_view()) == spec_resolver_paths(
            old(entries).deep_view(),
        ) + spec_section_query_paths(ws@, recs.deep_view(), root_dir@, crate_dir@),
{
    let ghost rs = recs.deep_view();
    let ghost pre = entries.deep_view();
    let mut i: usize = 0;
    proof {
        assert(rs.take(0) =~= Seq::<DepRecordV>::empty());
        assert(spec_resolver_paths(pre) + Seq::<Seq<char>>::empty() =~= spec_resolver_paths(pre));
    }
    while i < recs.len()
        invariant
            i <= recs.len(),
            rs == recs.deep_view(),
            rs.len() == recs.len(),
            pre == old(entries).deep_view(),
            spec_resolver_paths(entries.deep_view()) == spec_resolver_paths(pre)
                + spec_section_query_paths(ws@, rs.take(i as int), root_dir@, crate_dir@),
        decreases recs.len() - i,
    {
        let rec = &recs[i];
        let ghost q = spec_record_query_paths(ws@, rs[i as int], root_dir@, crate_dir@);
        let ghost done = spec_section_query_paths(ws@, rs.take(i as int), root_dir@, crate_dir@);
        match ws.find(rec.name.as_str()) {
            Some(ws_e) => {
                if !rec.entry.is_inherited() {
                    match (ws_e.path_of(), rec.entry.path_of()) {
                        (Some(wp), Some(cp)) => {
                            let wa = abs_of(root_dir, wp.as_str());
                            let ca = abs_of(crate_dir, cp.as_str());
                            let ghost mid = entries.deep_view();
                            let wc = canonicalize_path(wa.as_str());
                            proof {
                                assert(q =~= seq![wa@] + seq![ca@]);
                            }
                            let first = PathCanon { path: wa, canonical: wc };
                            let ghost firstv = first@;
                            entries.push(first);
                            proof {
                                lemma_resolver_paths_push(mid, firstv);
                                assert(entries.deep_view() =~= mid.push(firstv));
                            }
                            let ghost mid2 = entries.deep_view();
                            let cc = canonicalize_path(ca.as_str());
                            let second = PathCanon { path: ca, canonical: cc };
                            let ghost secondv = second@;
                            entries.push(second);
                            proof {
                                lemma_resolver_paths_push(mid2, secondv);
                                assert(entries.deep_view() =~= mid2.push(secondv));
                                assert(spec_resolver_paths(entries.deep_view())
                                    == ((spec_resolver_paths(pre) + done) + seq![firstv.path])
                                    + seq![secondv.path]);
                                assert(((spec_resolver_paths(pre) + done) + seq![firstv.path])
                                    + seq![secondv.path] =~= spec_resolver_paths(pre) + (done
                                    + q));
                            }
                        },
                        _ => {},
                    }
                }
            },
            None => {},
        }
        proof {
            lemma_section_query_paths_snoc(ws@, rs, i as int, root_dir@, crate_dir@);
            if q.len() == 0 {
                assert(done + q =~= done);
            }
            assert(spec_resolver_paths(pre) + done + q =~= spec_resolver_paths(pre) + (done + q));
        }
        i = i + 1;
    }
    proof {
        assert(rs.take(rs.len() as int) =~= rs);
    }
}

/// Collapses every provably equivalent entry of the package's three
/// dependency sections, asking the file system once for each path that
/// needs canonicalizing.  The result is what [`collapse_with`] yields under
/// some snapshot whose queried paths are exactly those the pipeline
/// compares; the canonical forms themselves are whatever the file system
/// answered.  With no shared dependency table at all (`ws` is `None`) the
/// operation is a no-op, as there is nothing to collapse into.
pub fn workspaceify_deps(
    ws: Option<&WorkspaceDeps>,
    pkg: &PackageDeps,
    lock: &LockFileVersions,
    root_dir: &str,
    crate_dir: &str,
) -> (r: Result<ReconcilePass, ReconcileError>)
    ensures
        match ws {
            Some(w) => exists|res: Seq<PathCanonV>|
                #[trigger] spec_collapse_outcome_matches(
                    w@,
                    pkg@,
                    lock@,
                    res,
                    root_dir@,
                    crate_dir@,
                    &r,
                ) && spec_resolver_paths(res) == spec_manifest_query_paths(
                    w@,
                    pkg@,
                    root_dir@,
                    crate_dir@,
                ),
            None => r is Ok && r->Ok_0.deps@ == pkg@ && r->Ok_0.changed == false
                && r->Ok_0.diagnostics@.len() == 0,
        },
{
    match ws {
        None => Ok(
            ReconcilePass {
                deps: crate::inline::duplicate_package(pkg),
                changed: false,
                diagnostics: Vec::new(),
            },
        ),
        Some(w) => {
            let mut entries: Vec<PathCanon> = Vec::new();
            proof {
                assert(entries.deep_view() =~= Seq::<PathCanonV>::empty());
            }
            add_section_paths(w, &pkg.dependencies, root_dir, crate_dir, &mut entries);
            add_section_paths(w, &pkg.dev_dependencies, root_dir, crate_dir, &mut entries);
            add_section_paths(w, &pkg.build_dependencies, root_dir, crate_dir, &mut entries);
            let resolver = PathResolver { entries };
            proof {
                let a = spec_section_query_paths(w@, pkg@.dependencies, root_dir@, crate_dir@);
                let b = spec_section_query_paths(w@, pkg@.dev_dependencies, root_dir@, crate_dir@);
                let c = spec_section_query_paths(w@, pkg@.build_dependencies, root_dir@,
                crate_dir@);
                assert(Seq::<Seq<char>>::empty() + a =~= a);
                assert(spec_resolver_paths(resolver@) =~= (a + b) + c);
            }
            let r = collapse_with(w, pkg, lock, &resolver, root_dir, crate_dir);
            proof {
                assert(spec_collapse_outcome_matches(
                    w@,
                    pkg@,
                    lock@,
                    resolver@,
                    root_dir@,
                    crate_dir@,
                    &r,
                ) && spec_resolver_paths(resolver@) == spec_manifest_query_paths(
                    w@,
                    pkg@,
                    root_dir@,
                    crate_dir@,
                ));
            }
            r
        },
    }
}

} // verus!
