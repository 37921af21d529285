//! Version reconciliation: deciding whether a workspace-declared version
//! requirement and a package-side version signal are compatible.
//!
//! A manifest requirement (such as `"1"`) is a *range*, not a point, so the
//! check needs a concrete version for the package side.  That version is
//! taken, in priority order, from the lock file, from a strict semantic
//! version parse of the entry's own version string, or from a relaxed parse
//! that accepts `MAJOR`, `MAJOR.MINOR` or `MAJOR.MINOR.PATCH` and defaults
//! the missing parts to zero.

use vstd::prelude::*;

use crate::lock::LockFileVersions;
use crate::lock::LockRecordV;
use crate::lock::spec_lock_version;
use crate::model::DepEntry;
use crate::model::DepEntryV;
use crate::model::spec_version_of;

verus! {

/// Whether `semver::VersionReq::parse` accepts the text.
pub uninterp spec fn req_parses(s: Seq<char>) -> bool;

/// Whether `semver::Version::parse` accepts the text.
pub uninterp spec fn version_parses(s: Seq<char>) -> bool;

/// Whether the requirement written as `req` matches the version written as
/// `ver`, under semantic-version range semantics.
pub uninterp spec fn req_matches_version(req: Seq<char>, ver: Seq<char>) -> bool;

/// Whether the requirement written as `req` matches the plain version
/// `major.minor.patch` (no pre-release, no build metadata).
pub uninterp spec fn req_matches_point(req: Seq<char>, major: u64, minor: u64, patch: u64) -> bool;

/// Relies on `semver::VersionReq::parse`: whether parsing succeeds depends
/// on the text alone.
#[verifier::external_body]
pub(crate) fn req_parse_ok(s: &str) -> (r: bool)
    ensures
        r == req_parses(s@),
{
    semver::VersionReq::parse(s).is_ok()
}

/// Relies on `semver::Version::parse`: whether parsing succeeds depends on
/// the text alone.
#[verifier::external_body]
pub(crate) fn version_parse_ok(s: &str) -> (r: bool)
    ensures
        r == version_parses(s@),
{
    semver::Version::parse(s).is_ok()
}

/// Relies on `semver::VersionReq::matches` (with `VersionReq::parse` and
/// `Version::parse`): the result depends on the two texts alone.
#[verifier::external_body]
pub(crate) fn req_matches_ver(req: &str, ver: &str) -> (r: bool)
    requires
        req_parses(req@),
        version_parses(ver@),
    ensures
        r == req_matches_version(req@, ver@),
{
    let req = semver::VersionReq::parse(req).unwrap();
    let ver = semver::Version::parse(ver).unwrap();
    req.matches(&ver)
}

/// Relies on `semver::VersionReq::matches` (with `VersionReq::parse` and
/// `Version::new`): the result depends on the text and the three numbers
/// alone.
#[verifier::external_body]
pub(crate) fn req_matches_at(req: &str, major: u64, minor: u64, patch: u64) -> (r: bool)
    requires
        req_parses(req@),
    ensures
        r == req_matches_point(req@, major, minor, patch),
{
    let req = semver::VersionReq::parse(req).unwrap();
    req.matches(&semver::Version::new(major, minor, patch))
}

/// Whether the character is an ASCII decimal digit.
pub open spec fn spec_is_digit(c: char) -> bool {
    '0' <= c && c <= '9'
}

/// The numeric value of an ASCII decimal digit.
pub open spec fn spec_digit_val(c: char) -> int {
    c as int - '0' as int
}

/// A non-empty run of ASCII decimal digits.
pub open spec fn spec_all_digits(s: Seq<char>) -> bool {
    s.len() > 0 && forall|i: int| 0 <= i < s.len() ==> spec_is_digit(#[trigger] s[i])
}

/// The number the digit run denotes, most significant digit first.
pub open spec fn spec_digits_val(s: Seq<char>) -> int
    decreases s.len(),
{
    if s.len() == 0 {
        0
    } else {
        spec_digits_val(s.drop_last()) * 10 + spec_digit_val(s.last())
    }
}

/// A valid version component: a non-empty digit run whose value fits `u64`.
pub open spec fn spec_component_ok(s: Seq<char>) -> bool {
    spec_all_digits(s) && spec_digits_val(s) <= u64::MAX as int
}

/// The position of the first `.` at or after `from`, if any.
pub open spec fn spec_first_dot_from(s: Seq<char>, from: int) -> Option<int>
    recommends
        0 <= from,
    decreases s.len() - from,
{
    if from >= s.len() {
        None
    } else if s[from] == '.' {
        Some(from)
    } else {
        spec_first_dot_from(s, from + 1)
    }
}

/// The relaxed version parse: `MAJOR`, `MAJOR.MINOR` or `MAJOR.MINOR.PATCH`,
/// each component a non-empty run of ASCII digits whose value fits `u64`,
/// missing components defaulting to zero.  Anything else (a pre-release
/// suffix, a wildcard, an empty component, a fourth component) fails.
pub open spec fn spec_relaxed(s: Seq<char>) -> Option<(int, int, int)> {
    match spec_first_dot_from(s, 0) {
        None => if spec_component_ok(s) {
            Some((spec_digits_val(s), 0, 0))
        } else {
            None
        },
        Some(i) => {
            let major = s.take(i);
            match spec_first_dot_from(s, i + 1) {
                None => {
                    let minor = s.skip(i + 1);
                    if spec_component_ok(major) && spec_component_ok(minor) {
                        Some((spec_digits_val(major), spec_digits_val(minor), 0))
                    } else {
                        None
                    }
                },
                Some(j) => {
                    let minor = s.subrange(i + 1, j);
                    let patch = s.skip(j + 1);
                    if spec_component_ok(major) && spec_component_ok(minor) && spec_component_ok(
                        patch,
                    ) {
                        Some(
                            (spec_digits_val(major), spec_digits_val(minor), spec_digits_val(
                                patch,
                            )),
                        )
                    } else {
                        None
                    }
                },
            }
        },
    }
}

proof fn lemma_digits_val_nonneg(s: Seq<char>)
    requires
        forall|i: int| 0 <= i < s.len() ==> spec_is_digit(#[trigger] s[i]),
    ensures
        spec_digits_val(s) >= 0,
    decreases s.len(),
{
    if s.len() > 0 {
        lemma_digits_val_nonneg(s.drop_last());
    }
}

/// Extending a digit run to the right never shrinks its value.
proof fn lemma_digits_val_mono(s: Seq<char>, m: int)
    requires
        0 <= m <= s.len(),
        forall|i: int| 0 <= i < s.len() ==> spec_is_digit(#[trigger] s[i]),
    ensures
        spec_digits_val(s.take(m)) <= spec_digits_val(s),
    decreases s.len(),
{
    if m == s.len() {
        assert(s.take(m) =~= s);
    } else {
        let d = s.drop_last();
        assert(forall|i: int| 0 <= i < d.len() ==> spec_is_digit(#[trigger] d[i]));
        lemma_digits_val_mono(d, m);
        assert(d.take(m) =~= s.take(m));
        lemma_digits_val_nonneg(d);
        assert(spec_digits_val(s) == spec_digits_val(d) * 10 + spec_digit_val(s.last()));
        assert(spec_digit_val(s.last()) >= 0);
        assert(spec_digits_val(d) * 10 >= spec_digits_val(d));
    }
}

/// Parses one version component: the characters of `s` from `start`
/// (inclusive) to `end` (exclusive), which must be a non-empty run of ASCII
/// digits with a value that fits `u64`.
fn parse_component(s: &str, start: usize, end: usize) -> (r: Option<u64>)
    requires
        start <= end <= s@.len(),
    ensures
        match r {
            Some(v) => spec_component_ok(s@.subrange(start as int, end as int)) && v as int
                == spec_digits_val(s@.subrange(start as int, end as int)),
            None => !spec_component_ok(s@.subrange(start as int, end as int)),
        },
{
    let ghost sub = s@.subrange(start as int, end as int);
    if start == end {
        assert(!spec_all_digits(sub));
        return None;
    }
    let mut val: u64 = 0;
    let mut k = start;
    while k < end
        invariant
            start <= k <= end <= s@.len(),
            sub == s@.subrange(start as int, end as int),
            forall|m: int| start <= m < k ==> spec_is_digit(#[trigger] s@[m]),
            val as int == spec_digits_val(s@.subrange(start as int, k as int)),
        decreases end - k,
    {
        let c = s.get_char(k);
        if !(c >= '0' && c <= '9') {
            assert(sub[k - start] == s@[k as int]);
            assert(!spec_all_digits(sub));
            return None;
        }
        let d: u64 = (c as u64) - ('0' as u64);
        let limit: u64 = u64::MAX / 10;
        if val > limit || (val == limit && d > u64::MAX % 10) {
            proof {
                let prefix = s@.subrange(start as int, (k + 1) as int);
                assert(prefix.drop_last() =~= s@.subrange(start as int, k as int));
                assert(prefix.last() == s@[k as int]);
                assert(spec_digits_val(prefix) == val as int * 10 + d as int);
                assert(val as int * 10 + d as int > u64::MAX as int);
                if spec_all_digits(sub) {
                    assert(forall|i: int|
                        0 <= i < sub.len() ==> spec_is_digit(#[trigger] sub[i]));
                    assert(sub.take((k + 1 - start) as int) =~= prefix);
                    lemma_digits_val_mono(sub, (k + 1 - start) as int);
                    assert(spec_digits_val(sub) > u64::MAX as int);
                }
            }
            return None;
        }
        proof {
            let prefix = s@.subrange(start as int, (k + 1) as int);
            assert(prefix.drop_last() =~= s@.subrange(start as int, k as int));
            assert(prefix.last() == s@[k as int]);
        }
        val = val * 10 + d;
        k = k + 1;
    }
    proof {
        assert(forall|i: int| 0 <= i < sub.len() ==> spec_is_digit(#[trigger] sub[i]));
        assert(sub.len() > 0);
    }
    Some(val)
}

/// The position of the first `.` at or after `from`.
fn find_dot(s: &str, from: usize) -> (r: Option<usize>)
    requires
        from <= s@.len(),
    ensures
        match r {
            Some(i) => spec_first_dot_from(s@, from as int) == Some(i as int) && from <= i
                < s@.len(),
            None => spec_first_dot_from(s@, from as int) is None,
        },
{
    let n = s.unicode_len();
    let mut k = from;
    while k < n
        invariant
            from <= k <= n == s@.len(),
            spec_first_dot_from(s@, from as int) == spec_first_dot_from(s@, k as int),
        decreases n - k,
    {
        let c = s.get_char(k);
        if c == '.' {
            return Some(k);
        }
        k = k + 1;
    }
    None
}

/// The relaxed version parser (see [`spec_relaxed`]): accepts `"1"`,
/// `"1.2"` and `"1.2.3"`, rejects anything else, and defaults the missing
/// minor and patch components to zero.
pub fn parse_relaxed(s: &str) -> (r: Option<(u64, u64, u64)>)
    ensures
        match r {
            Some(t) => spec_relaxed(s@) == Some((t.0 as int, t.1 as int, t.2 as int)),
            None => spec_relaxed(s@) is None,
        },
{
    let n = s.unicode_len();
    match find_dot(s, 0) {
        None => {
            proof {
                assert(s@.subrange(0, n as int) =~= s@);
            }
            match parse_component(s, 0, n) {
                Some(v) => Some((v, 0, 0)),
                None => None,
            }
        },
        Some(i) => {
            proof {
                assert(s@.subrange(0, i as int) =~= s@.take(i as int));
            }
            match find_dot(s, i + 1) {
                None => {
                    proof {
                        assert(s@.subrange(i + 1, n as int) =~= s@.skip(i + 1));
                    }
                    let major = parse_component(s, 0, i);
                    let minor = parse_component(s, i + 1, n);
                    match (major, minor) {
                        (Some(a), Some(b)) => Some((a, b, 0)),
                        _ => None,
                    }
                },
                Some(j) => {
                    proof {
                        assert(s@.subrange(j + 1, n as int) =~= s@.skip(j + 1));
                    }
                    let major = parse_component(s, 0, i);
                    let minor = parse_component(s, i + 1, j);
                    let patch = parse_component(s, j + 1, n);
                    match (major, minor, patch) {
                        (Some(a), Some(b), Some(c)) => Some((a, b, c)),
                        _ => None,
                    }
                },
            }
        },
    }
}

/// What the version reconciler concluded for one dependency entry.
#[derive(Clone, Copy, PartialEq, Eq, Structural, Debug)]
pub enum VersionDecision {
    /// Both sides supplied a version and the requirement matches it.
    Compatible,
    /// Both sides supplied a version and the requirement does not match it.
    Mismatch,
    /// Exactly one side supplied a usable version.
    OneSided,
    /// Neither side declares a version; compatibility is decided by the
    /// path check alone.
    NoVersions,
}

/// The package-side concrete version signal, in spec form.
pub enum VersionSignal {
    /// A version string that parses strictly.
    Exact(Seq<char>),
    /// A relaxed-parsed `major.minor.patch` triple.
    Triple(u64, u64, u64),
}

/// The workspace-side requirement: the entry's version string, if it is an
/// acceptable requirement expression.
pub open spec fn spec_ws_req(ws: DepEntryV) -> Option<Seq<char>> {
    match spec_version_of(ws) {
        Some(s) => if req_parses(s) {
            Some(s)
        } else {
            None
        },
        None => None,
    }
}

/// The package-side concrete version: the lock file's resolved version if it
/// parses strictly, else the entry's own version string, strictly or
/// relaxedly parsed.
pub open spec fn spec_concrete_version(
    crate_e: DepEntryV,
    name: Seq<char>,
    lock: Seq<LockRecordV>,
) -> Option<VersionSignal> {
    let from_lock = match spec_lock_version(lock, name) {
        Some(v) => if version_parses(v) {
            Some(v)
        } else {
            None
        },
        None => None,
    };
    match from_lock {
        Some(v) => Some(VersionSignal::Exact(v)),
        None => match spec_version_of(crate_e) {
            Some(s) => if version_parses(s) {
                Some(VersionSignal::Exact(s))
            } else {
                match spec_relaxed(s) {
                    Some(t) => Some(VersionSignal::Triple(t.0 as u64, t.1 as u64, t.2 as u64)),
                    None => None,
                }
            },
            None => None,
        },
    }
}

/// The version reconciler's decision for one dependency entry.
pub open spec fn spec_version_decision(
    ws_e: DepEntryV,
    crate_e: DepEntryV,
    name: Seq<char>,
    lock: Seq<LockRecordV>,
) -> VersionDecision {
    match (spec_ws_req(ws_e), spec_concrete_version(crate_e, name, lock)) {
        (Some(req), Some(VersionSignal::Exact(v))) => if req_matches_version(req, v) {
            VersionDecision::Compatible
        } else {
            VersionDecision::Mismatch
        },
        (Some(req), Some(VersionSignal::Triple(a, b, c))) => if req_matches_point(req, a, b, c) {
            VersionDecision::Compatible
        } else {
            VersionDecision::Mismatch
        },
        (Some(_), None) => VersionDecision::OneSided,
        (None, Some(_)) => VersionDecision::OneSided,
        (None, None) => VersionDecision::NoVersions,
    }
}

/// Decides version compatibility between the workspace's declaration and a
/// package's entry, consulting the lock index first.
pub fn version_decision(
    ws_e: &DepEntry,
    crate_e: &DepEntry,
    name: &str,
    lock: &LockFileVersions,
) -> (r: VersionDecision)
    ensures
        r == spec_version_decision(ws_e@, crate_e@, name@, lock@),
{
    let req: Option<&str> = match ws_e.version_of() {
        Some(v) => if req_parse_ok(v.as_str()) {
            Some(v.as_str())
        } else {
            None
        },
        None => None,
    };
    let lock_v: Option<&str> = match lock.lookup(name) {
        Some(v) => if version_parse_ok(v) {
            Some(v)
        } else {
            None
        },
        None => None,
    };
    let exact: Option<&str> = match lock_v {
        Some(v) => Some(v),
        None => match crate_e.version_of() {
            Some(s) => if version_parse_ok(s.as_str()) {
                Some(s.as_str())
            } else {
                None
            },
            None => None,
        },
    };
    let triple: Option<(u64, u64, u64)> = match (lock_v, exact) {
        (None, None) => match crate_e.version_of() {
            Some(s) => parse_relaxed(s.as_str()),
            None => None,
        },
        _ => None,
    };
    match (req, exact, triple) {
        (Some(r0), Some(v), _) => if req_matches_ver(r0, v) {
            VersionDecision::Compatible
        } else {
            VersionDecision::Mismatch
        },
        (Some(r0), None, Some(t)) => if req_matches_at(r0, t.0, t.1, t.2) {
            VersionDecision::Compatible
        } else {
            VersionDecision::Mismatch
        },
        (Some(_), None, None) => VersionDecision::OneSided,
        (None, Some(_), _) => VersionDecision::OneSided,
        (None, None, Some(_)) => VersionDecision::OneSided,
        (None, None, None) => VersionDecision::NoVersions,
    }
}

} // verus!
