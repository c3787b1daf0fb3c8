//! Forms: ordered sets of field definitions under a validated id and name.
use vstd::prelude::*;
use crate::field::{id_path, FieldDefinition};
use crate::validation::{
    check_id, check_length, finding_views, id_findings, id_valid, length_findings, path1, path3,
    push_finding, text_eq, Attr, Finding, PathStep, Rule, ValidationErrors, ValidationFinding,
};

verus! {

pub open spec fn name_path() -> Seq<PathStep> {
    seq![PathStep::Attr(Attr::Name)]
}

pub open spec fn field_ids(fields: Seq<FieldDefinition>) -> Seq<Seq<char>> {
    fields.map_values(|f: FieldDefinition| f.spec_id())
}

/// The duplicate-id findings among the first `n` ids: one for each id that
/// an earlier one repeats, at that id's position.
pub open spec fn duplicate_findings(ids: Seq<Seq<char>>, n: nat) -> Seq<Finding>
    decreases n,
{
    if n == 0 {
        Seq::empty()
    } else {
        let i = n - 1;
        duplicate_findings(ids, i as nat) + if ids.take(i).contains(ids[i]) {
            seq![
                Finding {
                    path: seq![PathStep::Attr(Attr::Fields), PathStep::Index(i as usize), PathStep::Attr(Attr::Id)],
                    rule: Rule::DuplicateFieldId,
                    value: ids[i],
                },
            ]
        } else {
            Seq::<Finding>::empty()
        }
    }
}

/// What validation finds of a form with this id, name and fields.
pub open spec fn form_findings(id: Seq<char>, name: Seq<char>, fields: Seq<FieldDefinition>) -> Seq<Finding> {
    id_findings(id_path(), id) + length_findings(name_path(), name, 1, 100) + duplicate_findings(
        field_ids(fields),
        fields.len(),
    )
}

pub open spec fn ids_unique(ids: Seq<Seq<char>>) -> bool {
    forall|i: int, j: int| 0 <= i < j < ids.len() ==> ids[i] != ids[j]
}

proof fn lemma_contains_push(s: Seq<Seq<char>>, y: Seq<char>, x: Seq<char>)
    ensures
        s.push(y).contains(x) <==> s.contains(x) || y == x,
{
    let t = s.push(y);
    if s.contains(x) {
        let k = choose|k: int| 0 <= k < s.len() && s[k] == x;
        assert(t[k] == x);
    }
    if y == x {
        assert(t[s.len() as int] == x);
    }
    if t.contains(x) {
        let k = choose|k: int| 0 <= k < t.len() && t[k] == x;
        if k < s.len() {
            assert(s[k] == x);
        }
    }
}

proof fn lemma_unique_push(s: Seq<Seq<char>>, x: Seq<char>)
    ensures
        ids_unique(s.push(x)) <==> ids_unique(s) && !s.contains(x),
{
    let t = s.push(x);
    if ids_unique(t) {
        assert forall|a: int, b: int| 0 <= a < b < s.len() implies #[trigger] s[a] != #[trigger] s[b] by {
            assert(t[a] != t[b]);
        }
        if s.contains(x) {
            let k = choose|k: int| 0 <= k < s.len() && s[k] == x;
            assert(t[k] == t[s.len() as int]);
        }
    }
    if ids_unique(s) && !s.contains(x) {
        assert forall|a: int, b: int| 0 <= a < b < t.len() implies #[trigger] t[a] != #[trigger] t[b] by {
            if b == s.len() {
                assert(t[a] == s[a]);
            } else {
                assert(s[a] != s[b]);
            }
        }
    }
}

/// A validated form: a valid id, a name of 1 to 100 characters, and fields
/// with pairwise distinct ids. Only [`FormBuilder::build`] makes one.
#[derive(Debug)]
pub struct FormDefinition {
    id: String,
    name: String,
    version: u32,
    fields: Vec<FieldDefinition>,
}

impl FormDefinition {
    #[verifier::type_invariant]
    spec fn inv(&self) -> bool {
        &&& id_valid(self.id@)
        &&& 1 <= self.name@.len() <= 100
        &&& ids_unique(field_ids(self.fields@))
    }

    pub closed spec fn spec_id(&self) -> Seq<char> {
        self.id@
    }

    pub closed spec fn spec_name(&self) -> Seq<char> {
        self.name@
    }

    pub closed spec fn spec_version(&self) -> u32 {
        self.version
    }

    pub closed spec fn spec_fields(&self) -> Seq<FieldDefinition> {
        self.fields@
    }

    pub fn id(&self) -> (r: &str)
        ensures
            r@ == self.spec_id(),
            id_valid(r@),
    {
        proof {
            use_type_invariant(self);
        }
        self.id.as_str()
    }

    pub fn name(&self) -> (r: &str)
        ensures
            r@ == self.spec_name(),
            1 <= r@.len() <= 100,
    {
        proof {
            use_type_invariant(self);
        }
        self.name.as_str()
    }

    pub fn version(&self) -> (r: u32)
        ensures
            r == self.spec_version(),
    {
        self.version
    }

    pub fn fields(&self) -> (r: &[FieldDefinition])
        ensures
            r@ == self.spec_fields(),
            ids_unique(field_ids(r@)),
    {
        proof {
            use_type_invariant(self);
        }
        self.fields.as_slice()
    }
}

/// The version a form has unless one is given.
pub fn default_version() -> (r: u32)
    ensures
        r == 1,
{
    1
}

/// An unvalidated draft of a [`FormDefinition`].
#[derive(Debug)]
pub struct FormBuilder {
    pub id: String,
    pub name: String,
    pub version: u32,
    pub fields: Vec<FieldDefinition>,
}

impl FormBuilder {
    /// A draft of version 1 with no fields.
    pub fn new(id: &str, name: &str) -> (r: Self)
        ensures
            r.id@ == id@,
            r.name@ == name@,
            r.version == 1,
            r.fields@.len() == 0,
    {
        FormBuilder {
            id: String::from_str(id),
            name: String::from_str(name),
            version: default_version(),
            fields: Vec::new(),
        }
    }

    pub fn version(self, version: u32) -> (r: Self)
        ensures
            r.id@ == self.id@,
            r.name@ == self.name@,
            r.version == version,
            r.fields@ == self.fields@,
    {
        let mut b = self;
        b.version = version;
        b
    }

    /// Appends a field.
    pub fn add_field(self, field: FieldDefinition) -> (r: Self)
        ensures
            r.id@ == self.id@,
            r.name@ == self.name@,
            r.version == self.version,
            r.fields@ == self.fields@.push(field),
    {
        let mut b = self;
        b.fields.push(field);
        b
    }

    /// Replaces all fields.
    pub fn with_fields(self, fields: Vec<FieldDefinition>) -> (r: Self)
        ensures
            r.id@ == self.id@,
            r.name@ == self.name@,
            r.version == self.version,
            r.fields@ == fields@,
    {
        let mut b = self;
        b.fields = fields;
        b
    }

    /// The validated form, or every finding against the draft.
    pub fn build(self) -> (r: Result<FormDefinition, ValidationErrors>)
        ensures
            r is Ok <==> form_findings(self.id@, self.name@, self.fields@).len() == 0,
            r matches Ok(d) ==> {
                &&& d.spec_id() == self.id@
                &&& d.spec_name() == self.name@
                &&& d.spec_version() == self.version
                &&& d.spec_fields() == self.fields@
            },
            r matches Err(e) ==> e@ == form_findings(self.id@, self.name@, self.fields@),
    {
        let mut findings: Vec<ValidationFinding> = Vec::new();
        let id_p = path1(Attr::Id);
        check_id(&mut findings, &id_p, self.id.as_str());
        check_length(&mut findings, path1(Attr::Name), self.name.as_str(), 1, 100);
        let ghost head = finding_views(findings@);
        let ghost ids = field_ids(self.fields@);
        let mut i: usize = 0;
        while i < self.fields.len()
            invariant
                i <= self.fields@.len(),
                ids == field_ids(self.fields@),
                finding_views(findings@) == head + duplicate_findings(ids, i as nat),
                ids_unique(ids.take(i as int)) <==> duplicate_findings(ids, i as nat).len() == 0,
            decreases self.fields@.len() - i,
        {
            let mut j: usize = 0;
            let mut seen = false;
            while j < i
                invariant
                    j <= i < self.fields@.len(),
                    ids == field_ids(self.fields@),
                    seen <==> ids.take(j as int).contains(ids[i as int]),
                decreases i - j,
            {
                if text_eq(self.fields[j].id(), self.fields[i].id()) {
                    seen = true;
                }
                proof {
                    assert(ids.take(j + 1) =~= ids.take(j as int).push(ids[j as int]));
                    lemma_contains_push(ids.take(j as int), ids[j as int], ids[i as int]);
                }
                j = j + 1;
            }
            proof {
                assert(ids.take(i + 1) =~= ids.take(i as int).push(ids[i as int]));
                lemma_unique_push(ids.take(i as int), ids[i as int]);
            }
            if seen {
                push_finding(&mut findings, path3(Attr::Fields, i, Attr::Id), Rule::DuplicateFieldId, self.fields[i].id());
            }
            proof {
                assert(finding_views(findings@) =~= head + duplicate_findings(ids, (i + 1) as nat));
            }
            i = i + 1;
        }
        proof {
            assert(ids.take(i as int) =~= ids);
            assert(finding_views(findings@) =~= form_findings(self.id@, self.name@, self.fields@));
        }
        if findings.len() == 0 {
            Ok(FormDefinition { id: self.id, name: self.name, version: self.version, fields: self.fields })
        } else {
            Err(ValidationErrors { findings })
        }
    }
}

proof fn lemma_duplicate_found(ids: Seq<Seq<char>>, n: nat, i: int, j: int)
    requires
        0 <= i < j < n <= ids.len(),
        ids[i] == ids[j],
    ensures
        exists|k: int|
            0 <= k < duplicate_findings(ids, n).len() && (#[trigger] duplicate_findings(ids, n)[k]).rule
                == Rule::DuplicateFieldId,
    decreases n,
{
    let prev = duplicate_findings(ids, (n - 1) as nat);
    if j == n - 1 {
        assert(ids.take(j)[i] == ids[j]);
        assert(duplicate_findings(ids, n)[prev.len() as int].rule == Rule::DuplicateFieldId);
    } else {
        lemma_duplicate_found(ids, (n - 1) as nat, i, j);
        let k = choose|k: int| 0 <= k < prev.len() && (#[trigger] prev[k]).rule == Rule::DuplicateFieldId;
        assert(duplicate_findings(ids, n)[k] == prev[k]);
    }
}

/// A form with two fields of the same id draws a `duplicate_field_id`
/// finding, so its builder never yields a form.
pub proof fn lemma_duplicate_ids_rejected(
    id: Seq<char>,
    name: Seq<char>,
    fields: Seq<FieldDefinition>,
    i: int,
    j: int,
)
    requires
        0 <= i < j < fields.len(),
        fields[i].spec_id() == fields[j].spec_id(),
    ensures
        form_findings(id, name, fields).len() > 0,
        exists|k: int|
            0 <= k < form_findings(id, name, fields).len() && (#[trigger] form_findings(
                id,
                name,
                fields,
            )[k]).rule == Rule::DuplicateFieldId,
{
    let ids = field_ids(fields);
    lemma_duplicate_found(ids, fields.len(), i, j);
    let dups = duplicate_findings(ids, fields.len());
    let head = id_findings(id_path(), id) + length_findings(name_path(), name, 1, 100);
    let k = choose|k: int| 0 <= k < dups.len() && (#[trigger] dups[k]).rule == Rule::DuplicateFieldId;
    assert(form_findings(id, name, fields)[head.len() + k] == dups[k]);
}

} // verus!
