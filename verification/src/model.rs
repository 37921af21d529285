//! Plain model of dependency tables.
//!
//! A dependency entry in a manifest is either a bare requirement string
//! (`rand = "0.8"`) or a table-like structure (`rand = { version = "0.8",
//! optional = true }`).  The model keeps, as plain values, exactly what the
//! reconciliation logic reads: string fields, boolean fields, and — for every
//! other kind of value — the verbatim text of the value, which is only ever
//! compared for textual equality or copied.  Field order is preserved.

use vstd::prelude::*;

use crate::text::str_eq;

verus! {

/// The value of one field of a table-like dependency entry.
#[derive(Debug, PartialEq, Eq)]
pub enum DepValue {
    /// A string value, by content (without the surrounding quotes).
    Text(String),
    /// A boolean value.
    Flag(bool),
    /// Any other value, carried as its exact source text and never
    /// interpreted.
    Verbatim(String),
}

/// The mathematical value of a [`DepValue`].
pub enum DepValueV {
    Text(Seq<char>),
    Flag(bool),
    Verbatim(Seq<char>),
}

impl View for DepValue {
    type V = DepValueV;

    open spec fn view(&self) -> DepValueV {
        match self {
            DepValue::Text(s) => DepValueV::Text(s@),
            DepValue::Flag(b) => DepValueV::Flag(*b),
            DepValue::Verbatim(s) => DepValueV::Verbatim(s@),
        }
    }
}

/// One `key = value` field of a table-like dependency entry.
#[derive(Debug, PartialEq, Eq)]
pub struct DepField {
    pub key: String,
    pub value: DepValue,
}

/// The mathematical value of a [`DepField`].
pub struct DepFieldV {
    pub key: Seq<char>,
    pub value: DepValueV,
}

impl View for DepField {
    type V = DepFieldV;

    open spec fn view(&self) -> DepFieldV {
        DepFieldV { key: self.key@, value: self.value@ }
    }
}

/// A single dependency entry of a manifest.
#[derive(Debug, PartialEq, Eq)]
pub enum DepEntry {
    /// A bare requirement string: `name = "1.2"`.
    Bare(String),
    /// A table-like entry.  `compact` records whether the entry is rendered
    /// in the most compact form, as a single dotted assignment
    /// (`name.workspace = true`) rather than an inline table.
    Table { compact: bool, fields: Vec<DepField> },
}

/// The mathematical value of a [`DepEntry`].
pub enum DepEntryV {
    Bare(Seq<char>),
    Table { compact: bool, fields: Seq<DepFieldV> },
}

impl View for DepEntry {
    type V = DepEntryV;

    open spec fn view(&self) -> DepEntryV {
        match self {
            DepEntry::Bare(s) => DepEntryV::Bare(s@),
            DepEntry::Table { compact, fields } => DepEntryV::Table {
                compact: *compact,
                fields: fields.deep_view(),
            },
        }
    }
}

impl DeepView for DepField {
    type V = DepFieldV;

    open spec fn deep_view(&self) -> DepFieldV {
        self@
    }
}

/// A named dependency entry, as it stands in one dependency section.
#[derive(Debug, PartialEq, Eq)]
pub struct DepRecord {
    pub name: String,
    pub entry: DepEntry,
}

/// The mathematical value of a [`DepRecord`].
pub struct DepRecordV {
    pub name: Seq<char>,
    pub entry: DepEntryV,
}

impl View for DepRecord {
    type V = DepRecordV;

    open spec fn view(&self) -> DepRecordV {
        DepRecordV { name: self.name@, entry: self.entry@ }
    }
}

impl DeepView for DepRecord {
    type V = DepRecordV;

    open spec fn deep_view(&self) -> DepRecordV {
        self@
    }
}

/// The workspace root's shared dependency table.
#[derive(Debug, PartialEq, Eq)]
pub struct WorkspaceDeps {
    pub entries: Vec<DepRecord>,
}

impl View for WorkspaceDeps {
    type V = Seq<DepRecordV>;

    open spec fn view(&self) -> Seq<DepRecordV> {
        self.entries.deep_view()
    }
}

/// The three dependency sections of one package manifest.
#[derive(Debug, PartialEq, Eq)]
pub struct PackageDeps {
    pub dependencies: Vec<DepRecord>,
    pub dev_dependencies: Vec<DepRecord>,
    pub build_dependencies: Vec<DepRecord>,
}

/// The mathematical value of a [`PackageDeps`].
pub struct PackageDepsV {
    pub dependencies: Seq<DepRecordV>,
    pub dev_dependencies: Seq<DepRecordV>,
    pub build_dependencies: Seq<DepRecordV>,
}

impl View for PackageDeps {
    type V = PackageDepsV;

    open spec fn view(&self) -> PackageDepsV {
        PackageDepsV {
            dependencies: self.dependencies.deep_view(),
            dev_dependencies: self.dev_dependencies.deep_view(),
            build_dependencies: self.build_dependencies.deep_view(),
        }
    }
}

/// The index of the first field with the given key, if any.
pub open spec fn spec_find_field(fields: Seq<DepFieldV>, key: Seq<char>) -> Option<int>
    decreases fields.len(),
{
    if fields.len() == 0 {
        None
    } else if fields[0].key == key {
        Some(0int)
    } else {
        match spec_find_field(fields.drop_first(), key) {
            Some(i) => Some(i + 1),
            None => None,
        }
    }
}

/// The value of the first field with the given key, if any.
pub open spec fn spec_field_value(fields: Seq<DepFieldV>, key: Seq<char>) -> Option<DepValueV>
    decreases fields.len(),
{
    if fields.len() == 0 {
        None
    } else if fields[0].key == key {
        Some(fields[0].value)
    } else {
        spec_field_value(fields.drop_first(), key)
    }
}

/// `spec_field_value` reads the field `spec_find_field` locates.
pub proof fn lemma_find_field_value(fields: Seq<DepFieldV>, key: Seq<char>)
    ensures
        match spec_find_field(fields, key) {
            Some(i) => 0 <= i < fields.len() && spec_field_value(fields, key) == Some(
                fields[i].value,
            ),
            None => spec_field_value(fields, key) is None,
        },
    decreases fields.len(),
{
    if fields.len() > 0 && fields[0].key != key {
        lemma_find_field_value(fields.drop_first(), key);
    }
}

/// The value of a field of a table-like entry; a bare entry has no fields.
pub open spec fn spec_entry_value(e: DepEntryV, key: Seq<char>) -> Option<DepValueV> {
    match e {
        DepEntryV::Bare(_) => None,
        DepEntryV::Table { compact: _, fields } => spec_field_value(fields, key),
    }
}

/// The string content of a field, if the field is present and is a string.
pub open spec fn spec_entry_str(e: DepEntryV, key: Seq<char>) -> Option<Seq<char>> {
    match spec_entry_value(e, key) {
        Some(DepValueV::Text(s)) => Some(s),
        _ => None,
    }
}

/// The boolean value of a field, if the field is present and is a boolean.
pub open spec fn spec_entry_bool(e: DepEntryV, key: Seq<char>) -> Option<bool> {
    match spec_entry_value(e, key) {
        Some(DepValueV::Flag(b)) => Some(b),
        _ => None,
    }
}

/// An entry is inherited from the workspace iff it carries the marker
/// `workspace = true`.
pub open spec fn spec_is_inherited(e: DepEntryV) -> bool {
    spec_entry_bool(e, "workspace"@) == Some(true)
}

/// An entry is optional iff it carries `optional = true`.
pub open spec fn spec_is_optional(e: DepEntryV) -> bool {
    spec_entry_bool(e, "optional"@) == Some(true)
}

/// The version signal a manifest entry itself carries: the string itself for
/// a bare entry, else the `version` field.
pub open spec fn spec_version_of(e: DepEntryV) -> Option<Seq<char>> {
    match e {
        DepEntryV::Bare(s) => Some(s),
        DepEntryV::Table { .. } => spec_entry_str(e, "version"@),
    }
}

/// The `path` field of an entry; a bare entry has none.
pub open spec fn spec_path_of(e: DepEntryV) -> Option<Seq<char>> {
    spec_entry_str(e, "path"@)
}

/// The entry of the first record with the given name, if any.
pub open spec fn spec_lookup(records: Seq<DepRecordV>, name: Seq<char>) -> Option<DepEntryV>
    decreases records.len(),
{
    if records.len() == 0 {
        None
    } else if records[0].name == name {
        Some(records[0].entry)
    } else {
        spec_lookup(records.drop_first(), name)
    }
}

impl DepValue {
    /// An exact copy.
    pub fn duplicate(&self) -> (r: DepValue)
        ensures
            r@ == self@,
    {
        match self {
            DepValue::Text(s) => DepValue::Text(s.clone()),
            DepValue::Flag(b) => DepValue::Flag(*b),
            DepValue::Verbatim(s) => DepValue::Verbatim(s.clone()),
        }
    }

    /// Whether two values are equal: strings and verbatim text by their
    /// characters, booleans by their value, values of different kinds never.
    pub fn same_as(&self, other: &DepValue) -> (r: bool)
        ensures
            r == (self@ == other@),
    {
        match (self, other) {
            (DepValue::Text(a), DepValue::Text(b)) => str_eq(a.as_str(), b.as_str()),
            (DepValue::Flag(a), DepValue::Flag(b)) => *a == *b,
            (DepValue::Verbatim(a), DepValue::Verbatim(b)) => str_eq(a.as_str(), b.as_str()),
            _ => false,
        }
    }
}

impl DepField {
    /// An exact copy.
    pub fn duplicate(&self) -> (r: DepField)
        ensures
            r@ == self@,
    {
        DepField { key: self.key.clone(), value: self.value.duplicate() }
    }
}

/// The index of the first field with the given key, if any.
pub fn find_field(fields: &Vec<DepField>, key: &str) -> (r: Option<usize>)
    ensures
        match r {
            Some(i) => spec_find_field(fields.deep_view(), key@) == Some(i as int) && i
                < fields.len(),
            None => spec_find_field(fields.deep_view(), key@) is None,
        },
{
    let ghost fs = fields.deep_view();
    proof {
        assert(fs.skip(0) =~= fs);
    }
    let mut i: usize = 0;
    while i < fields.len()
        invariant
            i <= fields.len(),
            fs == fields.deep_view(),
            fs.len() == fields.len(),
            forall|j: int| 0 <= j < i ==> fs[j].key != key@,
            spec_find_field(fs, key@) == spec_find_field_from(fs, key@, i as int),
        decreases fields.len() - i,
    {
        if str_eq(fields[i].key.as_str(), key) {
            proof {
                lemma_find_field_from_here(fs, key@, i as int);
            }
            return Some(i);
        }
        proof {
            lemma_find_field_from_step(fs, key@, i as int);
        }
        i = i + 1;
    }
    proof {
        lemma_find_field_from_end(fs, key@);
    }
    None
}

/// `spec_find_field` restricted to the suffix that starts at `from`.
pub open spec fn spec_find_field_from(fields: Seq<DepFieldV>, key: Seq<char>, from: int) -> Option<
    int,
>
    recommends
        0 <= from <= fields.len(),
{
    match spec_find_field(fields.skip(from), key) {
        Some(i) => Some(i + from),
        None => None,
    }
}

proof fn lemma_find_field_from_here(fields: Seq<DepFieldV>, key: Seq<char>, i: int)
    requires
        0 <= i < fields.len(),
        fields[i].key == key,
    ensures
        spec_find_field_from(fields, key, i) == Some(i),
{
    assert(fields.skip(i)[0] == fields[i]);
    assert(fields.skip(i).len() > 0);
}

proof fn lemma_find_field_from_step(fields: Seq<DepFieldV>, key: Seq<char>, i: int)
    requires
        0 <= i < fields.len(),
        fields[i].key != key,
    ensures
        spec_find_field_from(fields, key, i) == spec_find_field_from(fields, key, i + 1),
{
    assert(fields.skip(i)[0] == fields[i]);
    assert(fields.skip(i).drop_first() =~= fields.skip(i + 1));
}

proof fn lemma_find_field_from_end(fields: Seq<DepFieldV>, key: Seq<char>)
    ensures
        spec_find_field_from(fields, key, fields.len() as int) is None,
{
    assert(fields.skip(fields.len() as int) =~= Seq::<DepFieldV>::empty());
}

impl DepEntry {
    /// An exact copy.
    pub fn duplicate(&self) -> (r: DepEntry)
        ensures
            r@ == self@,
    {
        match self {
            DepEntry::Bare(s) => DepEntry::Bare(s.clone()),
            DepEntry::Table { compact, fields } => {
                let mut copy: Vec<DepField> = Vec::new();
                let mut i: usize = 0;
                while i < fields.len()
                    invariant
                        i <= fields.len(),
                        copy.deep_view() =~= fields.deep_view().take(i as int),
                    decreases fields.len() - i,
                {
                    let ghost pre = copy.deep_view();
                    copy.push(fields[i].duplicate());
                    proof {
                        assert(copy.deep_view() =~= pre.push(fields.deep_view()[i as int]));
                        assert(copy.deep_view() =~= fields.deep_view().take(i as int + 1));
                    }
                    i = i + 1;
                }
                proof {
                    assert(copy.deep_view() =~= fields.deep_view());
                }
                DepEntry::Table { compact: *compact, fields: copy }
            },
        }
    }

    /// The value of a field, by reference.
    pub fn field_value<'a>(&'a self, key: &str) -> (r: Option<&'a DepValue>)
        ensures
            match r {
                Some(v) => spec_entry_value(self@, key@) == Some(v@),
                None => spec_entry_value(self@, key@) is None,
            },
    {
        match self {
            DepEntry::Bare(_) => None,
            DepEntry::Table { compact: _, fields } => {
                proof {
                    lemma_find_field_value(fields.deep_view(), key@);
                }
                match find_field(fields, key) {
                    Some(i) => Some(&fields[i].value),
                    None => None,
                }
            },
        }
    }

    /// The string content of a field, by reference.
    pub fn field_str<'a>(&'a self, key: &str) -> (r: Option<&'a String>)
        ensures
            match r {
                Some(s) => spec_entry_str(self@, key@) == Some(s@),
                None => spec_entry_str(self@, key@) is None,
            },
    {
        match self.field_value(key) {
            Some(DepValue::Text(s)) => Some(s),
            _ => None,
        }
    }

    /// The boolean value of a field.
    pub fn field_bool(&self, key: &str) -> (r: Option<bool>)
        ensures
            r == spec_entry_bool(self@, key@),
    {
        match self.field_value(key) {
            Some(DepValue::Flag(b)) => Some(*b),
            _ => None,
        }
    }

    /// Whether the entry carries the inherited marker `workspace = true`.
    pub fn is_inherited(&self) -> (r: bool)
        ensures
            r == spec_is_inherited(self@),
    {
        match self.field_bool("workspace") {
            Some(b) => b,
            None => false,
        }
    }

    /// Whether the entry carries `optional = true`.
    pub fn is_optional(&self) -> (r: bool)
        ensures
            r == spec_is_optional(self@),
    {
        match self.field_bool("optional") {
            Some(b) => b,
            None => false,
        }
    }

    /// The version signal the entry itself carries.
    pub fn version_of<'a>(&'a self) -> (r: Option<&'a String>)
        ensures
            match r {
                Some(s) => spec_version_of(self@) == Some(s@),
                None => spec_version_of(self@) is None,
            },
    {
        match self {
            DepEntry::Bare(s) => Some(s),
            DepEntry::Table { .. } => self.field_str("version"),
        }
    }

    /// The `path` field of the entry.
    pub fn path_of<'a>(&'a self) -> (r: Option<&'a String>)
        ensures
            match r {
                Some(s) => spec_path_of(self@) == Some(s@),
                None => spec_path_of(self@) is None,
            },
    {
        self.field_str("path")
    }
}

/// Promotion of a bare entry to table form: the bare requirement string
/// becomes a single `version` field.  A table is left as it is.
pub open spec fn spec_promote(e: DepEntryV) -> DepEntryV {
    match e {
        DepEntryV::Bare(s) => DepEntryV::Table {
            compact: false,
            fields: seq![DepFieldV { key: "version"@, value: DepValueV::Text(s) }],
        },
        DepEntryV::Table { .. } => e,
    }
}

/// Setting a field in a field list: the first field with the key is
/// overwritten in place, otherwise the field is appended at the end.
pub open spec fn spec_set_fields(
    fields: Seq<DepFieldV>,
    key: Seq<char>,
    value: DepValueV,
) -> Seq<DepFieldV>
    decreases fields.len(),
{
    if fields.len() == 0 {
        seq![DepFieldV { key, value }]
    } else if fields[0].key == key {
        seq![DepFieldV { key, value }] + fields.drop_first()
    } else {
        seq![fields[0]] + spec_set_fields(fields.drop_first(), key, value)
    }
}

/// Setting a field: the entry is promoted to table form first.
pub open spec fn spec_set_field(e: DepEntryV, key: Seq<char>, value: DepValueV) -> DepEntryV {
    match spec_promote(e) {
        DepEntryV::Table { compact, fields } => DepEntryV::Table {
            compact,
            fields: spec_set_fields(fields, key, value),
        },
        e2 => e2,
    }
}

/// Removing every field with the given key from a field list.  A TOML table
/// cannot repeat a key, but the model does not assume that: removal clears
/// the key outright.
pub open spec fn spec_remove_fields(fields: Seq<DepFieldV>, key: Seq<char>) -> Seq<DepFieldV>
    decreases fields.len(),
{
    if fields.len() == 0 {
        fields
    } else if fields[0].key == key {
        spec_remove_fields(fields.drop_first(), key)
    } else {
        seq![fields[0]] + spec_remove_fields(fields.drop_first(), key)
    }
}

/// Removing a key of a table-like entry; a bare entry and a missing key
/// are left as they are.
pub open spec fn spec_remove_field(e: DepEntryV, key: Seq<char>) -> DepEntryV {
    match e {
        DepEntryV::Bare(_) => e,
        DepEntryV::Table { compact, fields } => DepEntryV::Table {
            compact,
            fields: spec_remove_fields(fields, key),
        },
    }
}

/// `spec_set_fields` in terms of the index `spec_find_field` locates.
pub proof fn lemma_set_fields_by_index(fields: Seq<DepFieldV>, key: Seq<char>, value: DepValueV)
    ensures
        match spec_find_field(fields, key) {
            Some(i) => 0 <= i < fields.len() && spec_set_fields(fields, key, value)
                == fields.update(i, DepFieldV { key, value }),
            None => spec_set_fields(fields, key, value) == fields.push(DepFieldV { key, value }),
        },
    decreases fields.len(),
{
    let f = DepFieldV { key, value };
    if fields.len() == 0 {
        assert(spec_set_fields(fields, key, value) =~= fields.push(f));
    } else if fields[0].key == key {
        assert(seq![f] + fields.drop_first() =~= fields.update(0, f));
    } else {
        lemma_set_fields_by_index(fields.drop_first(), key, value);
        match spec_find_field(fields.drop_first(), key) {
            Some(j) => {
                assert(seq![fields[0]] + fields.drop_first().update(j, f) =~= fields.update(
                    j + 1,
                    f,
                ));
            },
            None => {
                assert(seq![fields[0]] + fields.drop_first().push(f) =~= fields.push(f));
            },
        }
    }
}

/// Setting a field leaves every other key's value alone and pins its own.
pub proof fn lemma_value_after_set(
    fields: Seq<DepFieldV>,
    key: Seq<char>,
    value: DepValueV,
    key2: Seq<char>,
)
    ensures
        spec_field_value(spec_set_fields(fields, key, value), key2) == if key2 == key {
            Some(value)
        } else {
            spec_field_value(fields, key2)
        },
    decreases fields.len(),
{
    let f = DepFieldV { key, value };
    let s = spec_set_fields(fields, key, value);
    if fields.len() == 0 {
        assert(s == seq![f]);
        assert(s.len() == 1);
        assert(s[0] == f);
        assert(s.drop_first() =~= Seq::<DepFieldV>::empty());
        if key2 == key {
            assert(spec_field_value(s, key2) == Some(value));
        } else {
            assert(spec_field_value(s, key2) == spec_field_value(s.drop_first(), key2));
            assert(spec_field_value(s, key2) is None);
        }
    } else if fields[0].key == key {
        assert(s == seq![f] + fields.drop_first());
        assert(s.len() == fields.len());
        assert(s[0] == f);
        assert(s.drop_first() =~= fields.drop_first());
        if key2 == key {
            assert(spec_field_value(s, key2) == Some(value));
        } else {
            assert(spec_field_value(s, key2) == spec_field_value(fields.drop_first(), key2));
            assert(spec_field_value(fields, key2) == spec_field_value(
                fields.drop_first(),
                key2,
            ));
        }
    } else {
        lemma_value_after_set(fields.drop_first(), key, value, key2);
        assert(s == seq![fields[0]] + spec_set_fields(fields.drop_first(), key, value));
        assert(s.len() > 0);
        assert(s[0] == fields[0]);
        assert(s.drop_first() =~= spec_set_fields(fields.drop_first(), key, value));
        if key2 == fields[0].key {
            assert(spec_field_value(s, key2) == Some(fields[0].value));
            assert(spec_field_value(fields, key2) == Some(fields[0].value));
        } else {
            assert(spec_field_value(s, key2) == spec_field_value(s.drop_first(), key2));
            assert(spec_field_value(fields, key2) == spec_field_value(
                fields.drop_first(),
                key2,
            ));
        }
    }
}

/// Removing a key leaves every other key's value alone.
pub proof fn lemma_value_after_remove(fields: Seq<DepFieldV>, key: Seq<char>, key2: Seq<char>)
    requires
        key2 != key,
    ensures
        spec_field_value(spec_remove_fields(fields, key), key2) == spec_field_value(fields, key2),
    decreases fields.len(),
{
    if fields.len() == 0 {
    } else {
        lemma_value_after_remove(fields.drop_first(), key, key2);
        if fields[0].key != key {
            let s = spec_remove_fields(fields, key);
            assert(s == seq![fields[0]] + spec_remove_fields(fields.drop_first(), key));
            assert(s.len() > 0);
            assert(s[0] == fields[0]);
            assert(s.drop_first() =~= spec_remove_fields(fields.drop_first(), key));
        }
    }
}

/// After removal, no field with the key is left to find.
pub proof fn lemma_value_after_remove_same(fields: Seq<DepFieldV>, key: Seq<char>)
    ensures
        spec_field_value(spec_remove_fields(fields, key), key) is None,
    decreases fields.len(),
{
    if fields.len() == 0 {
    } else {
        lemma_value_after_remove_same(fields.drop_first(), key);
        if fields[0].key != key {
            let s = spec_remove_fields(fields, key);
            assert(s == seq![fields[0]] + spec_remove_fields(fields.drop_first(), key));
            assert(s.len() > 0);
            assert(s[0] == fields[0]);
            assert(s.drop_first() =~= spec_remove_fields(fields.drop_first(), key));
        }
    }
}

impl DepEntry {
    /// Promotes a bare entry to table form (see [`spec_promote`]).
    pub fn promote(self) -> (r: DepEntry)
        ensures
            r@ == spec_promote(self@),
    {
        match self {
            DepEntry::Bare(s) => {
                let mut fields: Vec<DepField> = Vec::new();
                fields.push(
                    DepField { key: String::from_str("version"), value: DepValue::Text(s) },
                );
                proof {
                    assert(fields.deep_view() =~= seq![
                        DepFieldV { key: "version"@, value: DepValueV::Text(s@) },
                    ]);
                }
                DepEntry::Table { compact: false, fields }
            },
            DepEntry::Table { .. } => self,
        }
    }

    /// Sets a field (see [`spec_set_field`]).
    pub fn set_field(self, key: &str, value: DepValue) -> (r: DepEntry)
        ensures
            r@ == spec_set_field(self@, key@, value@),
    {
        let promoted = self.promote();
        match promoted {
            DepEntry::Table { compact, mut fields } => {
                let ghost pre = fields.deep_view();
                let f = DepField { key: String::from_str(key), value };
                proof {
                    lemma_set_fields_by_index(pre, key@, f@.value);
                }
                match find_field(&fields, key) {
                    Some(i) => {
                        fields.remove(i);
                        fields.insert(i, f);
                        proof {
                            assert(fields.deep_view() =~= pre.update(
                                spec_find_field(pre, key@)->Some_0,
                                DepFieldV { key: key@, value: value@ },
                            ));
                        }
                    },
                    None => {
                        fields.push(f);
                        proof {
                            assert(fields.deep_view() =~= pre.push(
                                DepFieldV { key: key@, value: value@ },
                            ));
                        }
                    },
                }
                DepEntry::Table { compact, fields }
            },
            b => b,
        }
    }

    /// Removes a key (see [`spec_remove_field`]).
    pub fn remove_field(self, key: &str) -> (r: DepEntry)
        ensures
            r@ == spec_remove_field(self@, key@),
    {
        match self {
            DepEntry::Bare(_) => self,
            DepEntry::Table { compact, fields } => {
                let ghost fs = fields.deep_view();
                proof {
                    assert(fs.skip(0) =~= fs);
                }
                let mut out: Vec<DepField> = Vec::new();
                let mut i: usize = 0;
                while i < fields.len()
                    invariant
                        i <= fields.len(),
                        fs == fields.deep_view(),
                        fs.len() == fields.len(),
                        spec_remove_fields(fs, key@) =~= out.deep_view() + spec_remove_fields(
                            fs.skip(i as int),
                            key@,
                        ),
                    decreases fields.len() - i,
                {
                    proof {
                        assert(fs.skip(i as int)[0] == fs[i as int]);
                        assert(fs.skip(i as int).drop_first() =~= fs.skip(i as int + 1));
                    }
                    if !str_eq(fields[i].key.as_str(), key) {
                        let ghost pre = out.deep_view();
                        out.push(fields[i].duplicate());
                        proof {
                            assert(out.deep_view() =~= pre.push(fs[i as int]));
                            assert(out.deep_view() + spec_remove_fields(
                                fs.skip(i as int + 1),
                                key@,
                            ) =~= pre + (seq![fs[i as int]] + spec_remove_fields(
                                fs.skip(i as int + 1),
                                key@,
                            )));
                        }
                    }
                    i = i + 1;
                }
                proof {
                    assert(fs.skip(fs.len() as int) =~= Seq::<DepFieldV>::empty());
                    assert(out.deep_view() + Seq::<DepFieldV>::empty() =~= out.deep_view());
                }
                DepEntry::Table { compact, fields: out }
            },
        }
    }
}

impl DepRecord {
    /// An exact copy.
    pub fn duplicate(&self) -> (r: DepRecord)
        ensures
            r@ == self@,
    {
        DepRecord { name: self.name.clone(), entry: self.entry.duplicate() }
    }
}

impl WorkspaceDeps {
    /// The shared declaration for the given dependency name, if any.
    pub fn find<'a>(&'a self, name: &str) -> (r: Option<&'a DepEntry>)
        ensures
            match r {
                Some(e) => spec_lookup(self@, name@) == Some(e@),
                None => spec_lookup(self@, name@) is None,
            },
    {
        let ghost ws = self@;
        proof {
            assert(ws.skip(0) =~= ws);
        }
        let mut i: usize = 0;
        while i < self.entries.len()
            invariant
                i <= self.entries.len(),
                ws == self@,
                ws.len() == self.entries.len(),
                spec_lookup(ws, name@) == spec_lookup_from(ws, name@, i as int),
            decreases self.entries.len() - i,
        {
            if str_eq(self.entries[i].name.as_str(), name) {
                proof {
                    lemma_lookup_from_here(ws, name@, i as int);
                }
                return Some(&self.entries[i].entry);
            }
            proof {
                lemma_lookup_from_step(ws, name@, i as int);
            }
            i = i + 1;
        }
        proof {
            lemma_lookup_from_end(ws, name@);
        }
        None
    }
}

/// `spec_lookup` restricted to the suffix that starts at `from`.
pub open spec fn spec_lookup_from(records: Seq<DepRecordV>, name: Seq<char>, from: int) -> Option<
    DepEntryV,
>
    recommends
        0 <= from <= records.len(),
{
    spec_lookup(records.skip(from), name)
}

proof fn lemma_lookup_from_here(records: Seq<DepRecordV>, name: Seq<char>, i: int)
    requires
        0 <= i < records.len(),
        records[i].name == name,
    ensures
        spec_lookup_from(records, name, i) == Some(records[i].entry),
{
    assert(records.skip(i)[0] == records[i]);
    assert(records.skip(i).len() > 0);
}

proof fn lemma_lookup_from_step(records: Seq<DepRecordV>, name: Seq<char>, i: int)
    requires
        0 <= i < records.len(),
        records[i].name != name,
    ensures
        spec_lookup_from(records, name, i) == spec_lookup_from(records, name, i + 1),
{
    assert(records.skip(i)[0] == records[i]);
    assert(records.skip(i).drop_first() =~= records.skip(i + 1));
}

proof fn lemma_lookup_from_end(records: Seq<DepRecordV>, name: Seq<char>)
    ensures
        spec_lookup_from(records, name, records.len() as int) is None,
{
    assert(records.skip(records.len() as int) =~= Seq::<DepRecordV>::empty());
}

} // verus!
