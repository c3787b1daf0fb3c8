//! Checks a document's data against a form: required fields, value kinds,
//! number bounds, select options and timestamps. Every field is checked and
//! every error reported, except when the document belongs to another form.
use vstd::prelude::*;
use crate::document::{lookup, Document};
use crate::field::{FieldDefinition, FieldType};
use crate::form::FormDefinition;
use crate::validation::text_eq;
use crate::value::{kind_name, Decimal, Value};

verus! {

/// Whether `s` parses as an RFC 3339 timestamp.
pub uninterp spec fn is_rfc3339(s: Seq<char>) -> bool;

/// Relies on `chrono::DateTime::parse_from_rfc3339`: whether `s` parses as an
/// RFC 3339 timestamp, which depends on the characters of `s` alone.
#[verifier::external_body]
fn parses_as_rfc3339(s: &str) -> (r: bool)
    ensures
        r == is_rfc3339(s@),
{
    chrono::DateTime::parse_from_rfc3339(s).is_ok()
}

/// Why a document's data does not fit its form.
#[derive(Debug, PartialEq)]
pub enum DocumentValidationError {
    /// A required field has no value, or a null one.
    MissingRequiredField(String),
    /// A value is of the wrong kind.
    InvalidType { field_id: String, expected_type: String, got_type: String },
    /// A number lies below the field's minimum.
    ValueTooLow { field_id: String, value: Decimal, min: Decimal },
    /// A number lies above the field's maximum.
    ValueTooHigh { field_id: String, value: Decimal, max: Decimal },
    /// A selected value is not among the field's options.
    InvalidSelection { field_id: String, value: String, allowed: Vec<String> },
    /// A string does not parse as an RFC 3339 timestamp.
    InvalidDateFormat { field_id: String, value: String },
    /// The document belongs to another form.
    FormIdMismatch { doc_form: String, def_id: String },
}

/// The mathematical content of a [`DocumentValidationError`].
pub enum DocError {
    MissingRequiredField(Seq<char>),
    InvalidType { field_id: Seq<char>, expected_type: Seq<char>, got_type: Seq<char> },
    ValueTooLow { field_id: Seq<char>, value: Decimal, min: Decimal },
    ValueTooHigh { field_id: Seq<char>, value: Decimal, max: Decimal },
    InvalidSelection { field_id: Seq<char>, value: Seq<char>, allowed: Seq<Seq<char>> },
    InvalidDateFormat { field_id: Seq<char>, value: Seq<char> },
    FormIdMismatch { doc_form: Seq<char>, def_id: Seq<char> },
}

pub open spec fn strs(v: Seq<String>) -> Seq<Seq<char>> {
    v.map_values(|s: String| s@)
}

impl View for DocumentValidationError {
    type V = DocError;

    open spec fn view(&self) -> DocError {
        match self {
            DocumentValidationError::MissingRequiredField(f) => DocError::MissingRequiredField(f@),
            DocumentValidationError::InvalidType { field_id, expected_type, got_type } => DocError::InvalidType {
                field_id: field_id@,
                expected_type: expected_type@,
                got_type: got_type@,
            },
            DocumentValidationError::ValueTooLow { field_id, value, min } => DocError::ValueTooLow {
                field_id: field_id@,
                value: *value,
                min: *min,
            },
            DocumentValidationError::ValueTooHigh { field_id, value, max } => DocError::ValueTooHigh {
                field_id: field_id@,
                value: *value,
                max: *max,
            },
            DocumentValidationError::InvalidSelection { field_id, value, allowed } => DocError::InvalidSelection {
                field_id: field_id@,
                value: value@,
                allowed: strs(allowed@),
            },
            DocumentValidationError::InvalidDateFormat { field_id, value } => DocError::InvalidDateFormat {
                field_id: field_id@,
                value: value@,
            },
            DocumentValidationError::FormIdMismatch { doc_form, def_id } => DocError::FormIdMismatch {
                doc_form: doc_form@,
                def_id: def_id@,
            },
        }
    }
}

pub open spec fn error_views(s: Seq<DocumentValidationError>) -> Seq<DocError> {
    s.map_values(|e: DocumentValidationError| e@)
}

pub open spec fn type_error(field_id: Seq<char>, expected: Seq<char>, v: Value) -> DocError {
    DocError::InvalidType { field_id, expected_type: expected, got_type: kind_name(v) }
}

/// The error, if any, of one selected item.
pub open spec fn item_error(field_id: Seq<char>, options: Seq<Seq<char>>, item: Value) -> Option<DocError> {
    match item {
        Value::String(s) => if options.contains(s@) {
            None
        } else {
            Some(DocError::InvalidSelection { field_id, value: s@, allowed: options })
        },
        _ => Some(type_error(field_id, "String"@, item)),
    }
}

/// The first error among the first `n` selected items.
pub open spec fn items_error(field_id: Seq<char>, options: Seq<Seq<char>>, items: Seq<Value>, n: nat) -> Option<DocError>
    decreases n,
{
    if n == 0 {
        None
    } else {
        match items_error(field_id, options, items, (n - 1) as nat) {
            Some(e) => Some(e),
            None => item_error(field_id, options, items[n - 1]),
        }
    }
}

/// The error, if any, of a present, non-null value of the field `field_id`
/// of kind `ft`.
pub open spec fn value_error(field_id: Seq<char>, ft: FieldType, v: Value) -> Option<DocError> {
    match ft {
        FieldType::Text | FieldType::TextArea => if v is String {
            None
        } else {
            Some(type_error(field_id, "String"@, v))
        },
        FieldType::Number { min, max } => match v {
            Value::Number(d) => if min matches Some(m) && d.spec_lt(m) {
                Some(DocError::ValueTooLow { field_id, value: d, min: min->0 })
            } else if max matches Some(m) && m.spec_lt(d) {
                Some(DocError::ValueTooHigh { field_id, value: d, max: max->0 })
            } else {
                None
            },
            _ => Some(type_error(field_id, "Number"@, v)),
        },
        FieldType::Boolean => if v is Bool {
            None
        } else {
            Some(type_error(field_id, "Boolean"@, v))
        },
        FieldType::Select { options, allow_multiple } => if allow_multiple {
            match v {
                Value::Array(items) => items_error(field_id, strs(options@), items@, items@.len()),
                _ => Some(type_error(field_id, "Array"@, v)),
            }
        } else {
            item_error(field_id, strs(options@), v)
        },
        FieldType::DateTime => match v {
            Value::String(s) => if is_rfc3339(s@) {
                None
            } else {
                Some(DocError::InvalidDateFormat { field_id, value: s@ })
            },
            _ => Some(type_error(field_id, "String (ISO 8601)"@, v)),
        },
    }
}

/// The errors of one field, given what the document holds for it.
pub open spec fn field_errors(f: FieldDefinition, v: Option<Value>) -> Seq<DocError> {
    match v {
        Some(x) if !(x is Null) => match value_error(f.spec_id(), f.spec_field_type(), x) {
            Some(e) => seq![e],
            None => Seq::empty(),
        },
        _ => if f.spec_required() {
            seq![DocError::MissingRequiredField(f.spec_id())]
        } else {
            Seq::empty()
        },
    }
}

/// The errors of the first `n` fields, in field order.
pub open spec fn fields_errors(fields: Seq<FieldDefinition>, data: Seq<(String, Value)>, n: nat) -> Seq<DocError>
    decreases n,
{
    if n == 0 {
        Seq::empty()
    } else {
        fields_errors(fields, data, (n - 1) as nat) + field_errors(
            fields[n - 1],
            lookup(data, fields[n - 1].spec_id()),
        )
    }
}

/// Every error of `doc` against `form`: only the form mismatch when the
/// document belongs to another form, else the errors of each field in order.
pub open spec fn document_errors(doc: Document, form: FormDefinition) -> Seq<DocError> {
    if doc.form_id@ != form.spec_id() {
        seq![DocError::FormIdMismatch { doc_form: doc.form_id@, def_id: form.spec_id() }]
    } else {
        fields_errors(form.spec_fields(), doc.data@, form.spec_fields().len())
    }
}

/// The view of a validation result.
pub open spec fn outcome_view(r: Result<(), Vec<DocumentValidationError>>) -> Result<(), Seq<DocError>> {
    match r {
        Ok(()) => Ok(()),
        Err(es) => Err(error_views(es@)),
    }
}

/// What validating `doc` against `form` returns.
pub open spec fn validation_outcome(doc: Document, form: FormDefinition) -> Result<(), Seq<DocError>> {
    if document_errors(doc, form).len() == 0 {
        Ok(())
    } else {
        Err(document_errors(doc, form))
    }
}

fn invalid_type(field_id: &str, expected: &str, v: &Value) -> (r: DocumentValidationError)
    ensures
        r@ == type_error(field_id@, expected@, *v),
{
    DocumentValidationError::InvalidType {
        field_id: String::from_str(field_id),
        expected_type: String::from_str(expected),
        got_type: v.kind(),
    }
}

/// Whether `s` is among `options`.
fn is_option(options: &Vec<String>, s: &str) -> (r: bool)
    ensures
        r == strs(options@).contains(s@),
{
    let mut i: usize = 0;
    while i < options.len()
        invariant
            i <= options@.len(),
            forall|j: int| 0 <= j < i ==> (#[trigger] options@[j])@ != s@,
        decreases options@.len() - i,
    {
        if text_eq(options[i].as_str(), s) {
            assert(strs(options@)[i as int] == s@);
            return true;
        }
        i = i + 1;
    }
    proof {
        let o = strs(options@);
        if o.contains(s@) {
            let k = choose|k: int| 0 <= k < o.len() && o[k] == s@;
            assert(options@[k]@ == s@);
        }
    }
    false
}

fn copy_strings(v: &Vec<String>) -> (r: Vec<String>)
    ensures
        strs(r@) == strs(v@),
{
    let mut r: Vec<String> = Vec::new();
    let mut i: usize = 0;
    while i < v.len()
        invariant
            i <= v@.len(),
            strs(r@) == strs(v@.take(i as int)),
        decreases v@.len() - i,
    {
        let ghost prev = r@;
        let c = v[i].clone();
        r.push(c);
        proof {
            assert(v@.take(i + 1) =~= v@.take(i as int).push(v@[i as int]));
            assert(r@ =~= prev.push(c));
            assert(strs(prev.push(c)) =~= strs(prev).push(c@));
            assert(strs(v@.take(i as int).push(v@[i as int])) =~= strs(v@.take(i as int)).push(v@[i as int]@));
        }
        i = i + 1;
    }
    assert(v@.take(i as int) =~= v@);
    r
}

/// Checks one selected item against the options.
fn check_item(field_id: &str, options: &Vec<String>, item: &Value) -> (r: Result<(), DocumentValidationError>)
    ensures
        match item_error(field_id@, strs(options@), *item) {
            None => r is Ok,
            Some(e) => r matches Err(x) && x@ == e,
        },
{
    match item {
        Value::String(s) => {
            if is_option(options, s.as_str()) {
                Ok(())
            } else {
                Err(
                    DocumentValidationError::InvalidSelection {
                        field_id: String::from_str(field_id),
                        value: s.clone(),
                        allowed: copy_strings(options),
                    },
                )
            }
        },
        _ => Err(invalid_type(field_id, "String", item)),
    }
}

/// The verdict on the value `value` of a date-time field, given whether it
/// parses as an RFC 3339 timestamp.
pub fn check_date(field_id: &str, value: &str, parsed: bool) -> (r: Result<(), DocumentValidationError>)
    ensures
        r is Ok <==> parsed,
        r matches Err(e) ==> e@ == (DocError::InvalidDateFormat { field_id: field_id@, value: value@ }),
{
    if parsed {
        Ok(())
    } else {
        Err(DocumentValidationError::InvalidDateFormat { field_id: String::from_str(field_id), value: String::from_str(value) })
    }
}

/// Checks a present, non-null value against its field.
fn validate_value(value: &Value, field: &FieldDefinition) -> (r: Result<(), DocumentValidationError>)
    ensures
        match value_error(field.spec_id(), field.spec_field_type(), *value) {
            None => r is Ok,
            Some(e) => r matches Err(x) && x@ == e,
        },
{
    let fid = field.id();
    match field.field_type() {
        FieldType::Text | FieldType::TextArea => {
            match value {
                Value::String(_) => Ok(()),
                _ => Err(invalid_type(fid, "String", value)),
            }
        },
        FieldType::Number { min, max } => {
            match value {
                Value::Number(d) => {
                    if let Some(m) = min {
                        if d.less_than(m) {
                            return Err(DocumentValidationError::ValueTooLow { field_id: String::from_str(fid), value: *d, min: *m });
                        }
                    }
                    if let Some(m) = max {
                        if m.less_than(d) {
                            return Err(DocumentValidationError::ValueTooHigh { field_id: String::from_str(fid), value: *d, max: *m });
                        }
                    }
                    Ok(())
                },
                _ => Err(invalid_type(fid, "Number", value)),
            }
        },
        FieldType::Boolean => {
            match value {
                Value::Bool(_) => Ok(()),
                _ => Err(invalid_type(fid, "Boolean", value)),
            }
        },
        FieldType::Select { options, allow_multiple } => {
            if *allow_multiple {
                match value {
                    Value::Array(items) => {
                        let mut i: usize = 0;
                        while i < items.len()
                            invariant
                                i <= items@.len(),
                                items_error(fid@, strs(options@), items@, i as nat) is None,
                                value_error(field.spec_id(), field.spec_field_type(), *value)
                                    == items_error(fid@, strs(options@), items@, items@.len()),
                            decreases items@.len() - i,
                        {
                            let c = check_item(fid, options, &items[i]);
                            if c.is_err() {
                                proof {
                                    lemma_items_error_stays(fid@, strs(options@), items@, (i + 1) as nat, items@.len());
                                }
                                return c;
                            }
                            i = i + 1;
                        }
                        Ok(())
                    },
                    _ => Err(invalid_type(fid, "Array", value)),
                }
            } else {
                check_item(fid, options, value)
            }
        },
        FieldType::DateTime => {
            match value {
                Value::String(s) => check_date(fid, s.as_str(), parses_as_rfc3339(s.as_str())),
                _ => Err(invalid_type(fid, "String (ISO 8601)", value)),
            }
        },
    }
}

proof fn lemma_items_error_stays(
    field_id: Seq<char>,
    options: Seq<Seq<char>>,
    items: Seq<Value>,
    m: nat,
    n: nat,
)
    requires
        m <= n <= items.len(),
        items_error(field_id, options, items, m) is Some,
    ensures
        items_error(field_id, options, items, n) == items_error(field_id, options, items, m),
    decreases n - m,
{
    if m < n {
        lemma_items_error_stays(field_id, options, items, m, (n - 1) as nat);
    }
}

proof fn lemma_error_views_push(s: Seq<DocumentValidationError>, e: DocumentValidationError)
    ensures
        error_views(s.push(e)) == error_views(s).push(e@),
{
    assert(error_views(s.push(e)) =~= error_views(s).push(e@));
}

/// Validates `doc` against `form`: `Ok` exactly when no error is found, else
/// every error, in field order. A document of another form gets only the
/// mismatch. Data under keys that the form does not declare is ignored.
pub fn validate_document(doc: &Document, form: &FormDefinition) -> (r: Result<(), Vec<DocumentValidationError>>)
    ensures
        outcome_view(r) == validation_outcome(*doc, *form),
{
    let mut errors: Vec<DocumentValidationError> = Vec::new();
    if !text_eq(doc.form_id.as_str(), form.id()) {
        let e = DocumentValidationError::FormIdMismatch {
            doc_form: doc.form_id.clone(),
            def_id: String::from_str(form.id()),
        };
        proof {
            lemma_error_views_push(errors@, e);
        }
        errors.push(e);
        assert(error_views(errors@) =~= document_errors(*doc, *form));
        return Err(errors);
    }
    let fields = form.fields();
    let mut i: usize = 0;
    while i < fields.len()
        invariant
            i <= fields@.len(),
            fields@ == form.spec_fields(),
            doc.form_id@ == form.spec_id(),
            error_views(errors@) == fields_errors(fields@, doc.data@, i as nat),
        decreases fields@.len() - i,
    {
        let f = &fields[i];
        let ghost before = error_views(errors@);
        let missing = match doc.get_value(f.id()) {
            None => true,
            Some(v) => {
                if v.is_null() {
                    true
                } else {
                    match validate_value(v, f) {
                        Ok(()) => {},
                        Err(e) => {
                            proof {
                                lemma_error_views_push(errors@, e);
                            }
                            errors.push(e);
                        },
                    }
                    false
                }
            },
        };
        if missing && f.is_required() {
            let e = DocumentValidationError::MissingRequiredField(String::from_str(f.id()));
            proof {
                lemma_error_views_push(errors@, e);
            }
            errors.push(e);
        }
        proof {
            assert(error_views(errors@) =~= before + field_errors(fields@[i as int], lookup(doc.data@, fields@[i as int].spec_id())));
        }
        i = i + 1;
    }
    if errors.len() == 0 {
        Ok(())
    } else {
        Err(errors)
    }
}

/// Validation is a function of the document and the form: any two results
/// that validating the same document against the same form may return are
/// the same.
pub proof fn lemma_validation_deterministic(
    doc: Document,
    form: FormDefinition,
    r1: Result<(), Vec<DocumentValidationError>>,
    r2: Result<(), Vec<DocumentValidationError>>,
)
    requires
        outcome_view(r1) == validation_outcome(doc, form),
        outcome_view(r2) == validation_outcome(doc, form),
    ensures
        outcome_view(r1) == outcome_view(r2),
{
}

} // verus!
