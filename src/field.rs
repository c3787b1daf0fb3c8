//! Typed fields: the kinds of data a field holds, validated field definitions,
//! and the builder that produces them.
use vstd::prelude::*;
use crate::validation::{
    check_id, check_length, finding_views, id_findings, id_valid, length_findings, path1, Attr,
    Finding, PathStep, ValidationErrors, ValidationFinding,
};
use crate::value::Decimal;

verus! {

/// The kind of data a field holds, with the configuration that kind needs.
#[derive(Clone, Debug, PartialEq)]
pub enum FieldType {
    /// Single-line text.
    Text,
    /// Multi-line text.
    TextArea,
    /// A number, with optional inclusive bounds.
    Number { min: Option<Decimal>, max: Option<Decimal> },
    /// `true` or `false`.
    Boolean,
    /// An RFC 3339 timestamp.
    DateTime,
    /// One of `options`, or several of them when `allow_multiple`.
    Select { options: Vec<String>, allow_multiple: bool },
}

pub open spec fn id_path() -> Seq<PathStep> {
    seq![PathStep::Attr(Attr::Id)]
}

pub open spec fn label_path() -> Seq<PathStep> {
    seq![PathStep::Attr(Attr::Label)]
}

/// What validation finds of a field with this id and label.
pub open spec fn field_findings(id: Seq<char>, label: Seq<char>) -> Seq<Finding> {
    id_findings(id_path(), id) + length_findings(label_path(), label, 1, 100)
}

pub open spec fn field_valid(id: Seq<char>, label: Seq<char>) -> bool {
    id_valid(id) && 1 <= label.len() <= 100
}

/// A validated field: its id is 1 to 64 letters, digits, `_` or `-`, and its
/// label 1 to 100 characters. Only [`FieldBuilder::build`] makes one.
#[derive(Debug)]
pub struct FieldDefinition {
    id: String,
    label: String,
    field_type: FieldType,
    required: bool,
    description: Option<String>,
}

pub open spec fn opt_view(o: Option<String>) -> Option<Seq<char>> {
    match o {
        Some(s) => Some(s@),
        None => None,
    }
}

impl FieldDefinition {
    #[verifier::type_invariant]
    spec fn inv(&self) -> bool {
        field_valid(self.id@, self.label@)
    }

    pub closed spec fn spec_id(&self) -> Seq<char> {
        self.id@
    }

    pub closed spec fn spec_label(&self) -> Seq<char> {
        self.label@
    }

    pub closed spec fn spec_field_type(&self) -> FieldType {
        self.field_type
    }

    pub closed spec fn spec_required(&self) -> bool {
        self.required
    }

    pub closed spec fn spec_description(&self) -> Option<Seq<char>> {
        opt_view(self.description)
    }

    pub fn id(&self) -> (r: &str)
        ensures
            r@ == self.spec_id(),
            id_valid(r@),
    {
        proof {
            use_type_invariant(self);
        }
        self.id.as_str()
    }

    pub fn label(&self) -> (r: &str)
        ensures
            r@ == self.spec_label(),
            1 <= r@.len() <= 100,
    {
        proof {
            use_type_invariant(self);
        }
        self.label.as_str()
    }

    pub fn field_type(&self) -> (r: &FieldType)
        ensures
            *r == self.spec_field_type(),
    {
        &self.field_type
    }

    pub fn is_required(&self) -> (r: bool)
        ensures
            r == self.spec_required(),
    {
        self.required
    }

    pub fn description(&self) -> (r: Option<&str>)
        ensures
            r is Some <==> self.spec_description() is Some,
            r matches Some(d) ==> Some(d@) == self.spec_description(),
    {
        match &self.description {
            Some(d) => Some(d.as_str()),
            None => None,
        }
    }
}

impl Clone for FieldDefinition {
    fn clone(&self) -> (r: Self) {
        proof {
            use_type_invariant(self);
        }
        FieldDefinition {
            id: self.id.clone(),
            label: self.label.clone(),
            field_type: self.field_type.clone(),
            required: self.required,
            description: self.description.clone(),
        }
    }
}

/// An unvalidated draft of a [`FieldDefinition`].
#[derive(Clone, Debug)]
pub struct FieldBuilder {
    id: String,
    label: String,
    field_type: FieldType,
    required: bool,
    description: Option<String>,
}

impl FieldBuilder {
    pub closed spec fn spec_id(&self) -> Seq<char> {
        self.id@
    }

    pub closed spec fn spec_label(&self) -> Seq<char> {
        self.label@
    }

    pub closed spec fn spec_field_type(&self) -> FieldType {
        self.field_type
    }

    pub closed spec fn spec_required(&self) -> bool {
        self.required
    }

    pub closed spec fn spec_description(&self) -> Option<Seq<char>> {
        opt_view(self.description)
    }

    /// A draft that is not required and has no description.
    pub fn new(id: &str, label: &str, field_type: FieldType) -> (r: Self)
        ensures
            r.spec_id() == id@,
            r.spec_label() == label@,
            r.spec_field_type() == field_type,
            !r.spec_required(),
            r.spec_description() is None,
    {
        FieldBuilder {
            id: String::from_str(id),
            label: String::from_str(label),
            field_type,
            required: false,
            description: None,
        }
    }

    pub fn required(self, is_required: bool) -> (r: Self)
        ensures
            r.spec_id() == self.spec_id(),
            r.spec_label() == self.spec_label(),
            r.spec_field_type() == self.spec_field_type(),
            r.spec_required() == is_required,
            r.spec_description() == self.spec_description(),
    {
        let mut b = self;
        b.required = is_required;
        b
    }

    pub fn with_description(self, description: &str) -> (r: Self)
        ensures
            r.spec_id() == self.spec_id(),
            r.spec_label() == self.spec_label(),
            r.spec_field_type() == self.spec_field_type(),
            r.spec_required() == self.spec_required(),
            r.spec_description() == Some(description@),
    {
        let mut b = self;
        b.description = Some(String::from_str(description));
        b
    }

    /// The validated definition, or every finding against the draft.
    pub fn build(self) -> (r: Result<FieldDefinition, ValidationErrors>)
        ensures
            r is Ok <==> field_findings(self.spec_id(), self.spec_label()).len() == 0,
            r matches Ok(d) ==> {
                &&& d.spec_id() == self.spec_id()
                &&& d.spec_label() == self.spec_label()
                &&& d.spec_field_type() == self.spec_field_type()
                &&& d.spec_required() == self.spec_required()
                &&& d.spec_description() == self.spec_description()
            },
            r matches Err(e) ==> e@ == field_findings(self.spec_id(), self.spec_label()),
    {
        let mut findings: Vec<ValidationFinding> = Vec::new();
        let id_p = path1(Attr::Id);
        check_id(&mut findings, &id_p, self.id.as_str());
        check_length(&mut findings, path1(Attr::Label), self.label.as_str(), 1, 100);
        assert(finding_views(findings@) =~= field_findings(self.id@, self.label@));
        if findings.len() == 0 {
            Ok(
                FieldDefinition {
                    id: self.id,
                    label: self.label,
                    field_type: self.field_type,
                    required: self.required,
                    description: self.description,
                },
            )
        } else {
            Err(ValidationErrors { findings })
        }
    }
}

/// Any id of 1 to 64 letters, digits, `_` or `-` together with any label of
/// 1 to 100 characters draws no finding, so such a field always builds.
pub proof fn lemma_valid_field_accepted(id: Seq<char>, label: Seq<char>)
    requires
        field_valid(id, label),
    ensures
        field_findings(id, label) == Seq::<Finding>::empty(),
{
    assert(field_findings(id, label) =~= Seq::<Finding>::empty());
}

} // verus!
