//! Form schemas, workflow graphs and documents: typed fields and forms that
//! are validated when built, workflows whose transitions must name existing
//! phases, a validator that checks a document's data against a form, and an
//! engine that moves a document through a workflow's phases.
pub mod config;
pub mod document;
pub mod engine;
pub mod field;
pub mod form;
pub mod number_text;
pub mod service;
pub mod validation;
pub mod validator;
pub mod value;
pub mod workflow;

pub use config::ConfigFormat;
pub use document::Document;
pub use engine::{transition, WorkflowError};
pub use field::{FieldBuilder, FieldDefinition, FieldType};
pub use form::{FormBuilder, FormDefinition};
pub use service::{create_document, ServiceError};
pub use validation::{ValidationErrors, ValidationFinding};
pub use validator::{validate_document, DocumentValidationError};
pub use value::{Decimal, Value};
pub use workflow::{Phase, PhaseType, Transition, WorkflowBuilder, WorkflowDefinition, WorkflowGraph};
