//! Creating documents: a new document enters its workflow's start phase,
//! provided that its data passes validation against its form.
use vstd::prelude::*;
use crate::document::Document;
use crate::engine::{no_start_phase, WfError, WorkflowError};
use crate::form::FormDefinition;
use crate::validator::{error_views, fields_errors, validate_document, DocumentValidationError};
use crate::value::Value;
use crate::workflow::{WorkflowDefinition, WorkflowGraph};

verus! {

/// Why a document could not be created.
#[derive(Debug, PartialEq)]
pub enum ServiceError {
    /// No form has the requested id.
    FormNotFound(String),
    /// No workflow has the requested id.
    WorkflowNotFound(String),
    /// The workflow does not allow the operation.
    WorkflowRuleViolation(WorkflowError),
    /// The data does not fit the form.
    DocumentValidationErrors(Vec<DocumentValidationError>),
}

/// A new document of `form` and `workflow` with id `doc_id`, holding `data`
/// and standing in the workflow's start phase. Fails when the workflow has
/// no start phase, and otherwise when the data does not pass validation
/// against the form, with every validation error.
pub fn create_document(
    doc_id: &str,
    form: &FormDefinition,
    workflow: &WorkflowDefinition,
    data: Vec<(String, Value)>,
) -> (r: Result<Document, ServiceError>)
    ensures
        match workflow.spec_get_start_phase() {
            None => r matches Err(ServiceError::WorkflowRuleViolation(e)) && e@ == WfError::UnknownPhase(
                no_start_phase(),
            ),
            Some(start) => if fields_errors(form.spec_fields(), data@, form.spec_fields().len()).len() == 0 {
                r matches Ok(d) && {
                    &&& d.id@ == doc_id@
                    &&& d.form_id@ == form.spec_id()
                    &&& d.workflow_id@ == workflow.spec_id()
                    &&& d.data@ == data@
                    &&& d.current_phase@ == start.id@
                    &&& d.created_at == d.updated_at
                }
            } else {
                r matches Err(ServiceError::DocumentValidationErrors(es)) && error_views(es@)
                    == fields_errors(form.spec_fields(), data@, form.spec_fields().len())
            },
        },
{
    let start = match workflow.get_start_phase() {
        Some(p) => p,
        None => {
            return Err(
                ServiceError::WorkflowRuleViolation(
                    WorkflowError::UnknownPhase(String::from_str("No start phase defined")),
                ),
            );
        },
    };
    let mut doc = Document::new(doc_id, form.id(), workflow.id());
    doc.current_phase = start.id.clone();
    doc.data = data;
    match validate_document(&doc, form) {
        Ok(()) => Ok(doc),
        Err(errors) => Err(ServiceError::DocumentValidationErrors(errors)),
    }
}

} // verus!
