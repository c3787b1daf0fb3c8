//! The workflow engine: moves a document from its current phase to another
//! along the transitions its workflow declares.
use vstd::prelude::*;
use crate::document::Document;
use crate::validation::text_eq;
use crate::workflow::{WorkflowDefinition, WorkflowGraph};

verus! {

/// Why a document could not move to a phase.
#[derive(Debug, PartialEq)]
pub enum WorkflowError {
    /// The document belongs to another workflow.
    WorkflowMismatch { doc_wf: String, provided_wf: String },
    /// The workflow has no phase of this id, or no start phase.
    UnknownPhase(String),
    /// No transition leads from the current phase to the target.
    InvalidTransition { current: String, target: String },
    /// The document has no current phase.
    NoCurrentPhase,
}

/// The mathematical content of a [`WorkflowError`].
pub enum WfError {
    WorkflowMismatch { doc_wf: Seq<char>, provided_wf: Seq<char> },
    UnknownPhase(Seq<char>),
    InvalidTransition { current: Seq<char>, target: Seq<char> },
    NoCurrentPhase,
}

impl View for WorkflowError {
    type V = WfError;

    open spec fn view(&self) -> WfError {
        match self {
            WorkflowError::WorkflowMismatch { doc_wf, provided_wf } => WfError::WorkflowMismatch {
                doc_wf: doc_wf@,
                provided_wf: provided_wf@,
            },
            WorkflowError::UnknownPhase(p) => WfError::UnknownPhase(p@),
            WorkflowError::InvalidTransition { current, target } => WfError::InvalidTransition {
                current: current@,
                target: target@,
            },
            WorkflowError::NoCurrentPhase => WfError::NoCurrentPhase,
        }
    }
}

/// Where a document stands before it enters its workflow, as errors name it.
pub open spec fn waiting_to_start() -> Seq<char> {
    "WAITING_TO_START"@
}

pub open spec fn no_start_phase() -> Seq<char> {
    "No start phase defined"@
}

/// The outcome of moving a document of workflow `doc_wf`, standing at
/// `current`, to `target` in `wf`: the new phase, or the error.
pub open spec fn transition_outcome(
    doc_wf: Seq<char>,
    current: Seq<char>,
    wf: WorkflowDefinition,
    target: Seq<char>,
) -> Result<Seq<char>, WfError> {
    if doc_wf != wf.spec_id() {
        Err(WfError::WorkflowMismatch { doc_wf, provided_wf: wf.spec_id() })
    } else if wf.spec_get_phase(target) is None {
        Err(WfError::UnknownPhase(target))
    } else if current.len() == 0 {
        match wf.spec_get_start_phase() {
            Some(p) => if p.id@ == target {
                Ok(target)
            } else {
                Err(WfError::InvalidTransition { current: waiting_to_start(), target })
            },
            None => Err(WfError::UnknownPhase(no_start_phase())),
        }
    } else if wf.spec_can_transition(current, target) {
        Ok(target)
    } else {
        Err(WfError::InvalidTransition { current, target })
    }
}

/// Moves `doc` to the phase `target_phase_id` of `workflow`.
///
/// A new document (empty current phase) may only enter the first phase of
/// type `Start`; any other may only follow a declared transition. On success
/// only the current phase changes; on failure nothing does.
pub fn transition(doc: &mut Document, workflow: &WorkflowDefinition, target_phase_id: &str) -> (r: Result<(), WorkflowError>)
    ensures
        match transition_outcome(old(doc).workflow_id@, old(doc).current_phase@, *workflow, target_phase_id@) {
            Ok(p) => {
                &&& r is Ok
                &&& final(doc).current_phase@ == p
                &&& final(doc).id == old(doc).id
                &&& final(doc).form_id == old(doc).form_id
                &&& final(doc).workflow_id == old(doc).workflow_id
                &&& final(doc).data == old(doc).data
                &&& final(doc).created_at == old(doc).created_at
                &&& final(doc).updated_at == old(doc).updated_at
            },
            Err(e) => {
                &&& r matches Err(x) && x@ == e
                &&& *final(doc) == *old(doc)
            },
        },
{
    if !text_eq(doc.workflow_id.as_str(), workflow.id()) {
        return Err(
            WorkflowError::WorkflowMismatch {
                doc_wf: doc.workflow_id.clone(),
                provided_wf: String::from_str(workflow.id()),
            },
        );
    }
    if workflow.get_phase(target_phase_id).is_none() {
        return Err(WorkflowError::UnknownPhase(String::from_str(target_phase_id)));
    }
    if doc.current_phase.as_str().unicode_len() == 0 {
        match workflow.get_start_phase() {
            Some(start) => {
                if text_eq(start.id.as_str(), target_phase_id) {
                    doc.current_phase = String::from_str(target_phase_id);
                    return Ok(());
                } else {
                    return Err(
                        WorkflowError::InvalidTransition {
                            current: String::from_str("WAITING_TO_START"),
                            target: String::from_str(target_phase_id),
                        },
                    );
                }
            },
            None => {
                return Err(WorkflowError::UnknownPhase(String::from_str("No start phase defined")));
            },
        }
    }
    if !workflow.can_transition(doc.current_phase.as_str(), target_phase_id) {
        return Err(
            WorkflowError::InvalidTransition {
                current: doc.current_phase.clone(),
                target: String::from_str(target_phase_id),
            },
        );
    }
    doc.current_phase = String::from_str(target_phase_id);
    Ok(())
}

/// A document of another workflow never moves, whatever the target: the
/// outcome is always the workflow mismatch.
pub proof fn lemma_mismatch_always_fails(
    doc_wf: Seq<char>,
    current: Seq<char>,
    wf: WorkflowDefinition,
    target: Seq<char>,
)
    requires
        doc_wf != wf.spec_id(),
    ensures
        transition_outcome(doc_wf, current, wf, target) == Err::<Seq<char>, WfError>(
            WfError::WorkflowMismatch { doc_wf, provided_wf: wf.spec_id() },
        ),
{
}

} // verus!
