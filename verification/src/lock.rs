//! Best-effort index from package name to the concrete version a lock file
//! resolved it to.
//!
//! Lock data is an optimization, never a requirement: the caller reads and
//! parses the lock file and hands over whatever records it found, or none at
//! all when the file is absent or unreadable.

use vstd::prelude::*;

use crate::text::str_eq;

verus! {

/// One resolved package of a lock file: a name and an exact version string.
pub struct LockRecord {
    pub name: String,
    pub version: String,
}

/// The mathematical value of a [`LockRecord`].
pub struct LockRecordV {
    pub name: Seq<char>,
    pub version: Seq<char>,
}

impl View for LockRecord {
    type V = LockRecordV;

    open spec fn view(&self) -> LockRecordV {
        LockRecordV { name: self.name@, version: self.version@ }
    }
}

impl DeepView for LockRecord {
    type V = LockRecordV;

    open spec fn deep_view(&self) -> LockRecordV {
        self@
    }
}

/// The version of the last record with the given name, if any.  The index
/// behaves like a map built by inserting the records in order, so on a
/// duplicate name — a lock file can genuinely resolve one package name to
/// two versions — the later record wins.
pub open spec fn spec_lock_version(records: Seq<LockRecordV>, name: Seq<char>) -> Option<
    Seq<char>,
>
    decreases records.len(),
{
    if records.len() == 0 {
        None
    } else if records.last().name == name {
        Some(records.last().version)
    } else {
        spec_lock_version(records.drop_last(), name)
    }
}

/// The versions a lock file resolved, queried by package name.
pub struct LockFileVersions {
    pub records: Vec<LockRecord>,
}

impl View for LockFileVersions {
    type V = Seq<LockRecordV>;

    open spec fn view(&self) -> Seq<LockRecordV> {
        self.records.deep_view()
    }
}

impl LockFileVersions {
    /// Builds the index from the records of a lock file.  An absent or
    /// unparseable lock file degrades to an empty list of records.
    pub fn new(records: Vec<LockRecord>) -> (r: Self)
        ensures
            r@ == records.deep_view(),
    {
        LockFileVersions { records }
    }

    /// The exact version the lock file resolved the given package to.
    pub fn lookup<'a>(&'a self, package_name: &str) -> (r: Option<&'a str>)
        ensures
            match r {
                Some(v) => spec_lock_version(self@, package_name@) == Some(v@),
                None => spec_lock_version(self@, package_name@) is None,
            },
    {
        let ghost rs = self@;
        proof {
            assert(rs.take(rs.len() as int) =~= rs);
        }
        let mut i: usize = self.records.len();
        while i > 0
            invariant
                i <= self.records.len(),
                rs == self@,
                rs.len() == self.records.len(),
                spec_lock_version(rs, package_name@) == spec_lock_version(
                    rs.take(i as int),
                    package_name@,
                ),
            decreases i,
        {
            let j = i - 1;
            proof {
                assert(rs.take(i as int).last() == rs[j as int]);
                assert(rs.take(i as int).drop_last() =~= rs.take(j as int));
            }
            if str_eq(self.records[j].name.as_str(), package_name) {
                return Some(self.records[j].version.as_str());
            }
            i = j;
        }
        proof {
            assert(rs.take(0) =~= Seq::<LockRecordV>::empty());
        }
        None
    }
}

} // verus!
