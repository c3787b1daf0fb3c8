use molten::{
    transition, validate_document, Decimal, Document, DocumentValidationError, FieldBuilder,
    FieldType, FormBuilder, FormDefinition, Phase, PhaseType, Transition, Value, WorkflowBuilder,
    WorkflowDefinition, WorkflowError,
};

fn num(n: i64) -> Value {
    Value::Number(Decimal::from_i64(n))
}

fn text(s: &str) -> Value {
    Value::String(s.to_string())
}

fn create_test_form() -> FormDefinition {
    FormBuilder::new("ticket", "Ticket")
        .add_field(
            FieldBuilder::new("title", "Title", FieldType::Text)
                .required(true)
                .build()
                .unwrap(),
        )
        .add_field(
            FieldBuilder::new(
                "severity",
                "Severity",
                FieldType::Number {
                    min: Some(Decimal::from_i64(1)),
                    max: Some(Decimal::from_i64(5)),
                },
            )
            .build()
            .unwrap(),
        )
        .add_field(
            FieldBuilder::new(
                "status",
                "Status",
                FieldType::Select {
                    options: vec!["Open".into(), "Closed".into()],
                    allow_multiple: false,
                },
            )
            .build()
            .unwrap(),
        )
        .build()
        .unwrap()
}

fn create_simple_workflow() -> WorkflowDefinition {
    WorkflowBuilder::new("wf_ticket", "Ticket Workflow")
        .add_phase(Phase::new("draft", "Draft", PhaseType::Start))
        .add_phase(Phase::new("review", "Review", PhaseType::Normal))
        .add_phase(Phase::new("closed", "Closed", PhaseType::End))
        .add_transition(Transition::new("submit", "draft", "review"))
        .add_transition(Transition::new("approve", "review", "closed"))
        .add_transition(Transition::new("reject", "review", "draft"))
        .build()
        .unwrap()
}

#[test]
fn test_document_creation() {
    let mut doc = Document::new("doc_123", "incident_report", "");

    doc.set_value("title", text("Server Crash"));
    doc.set_value("severity", num(5));

    assert_eq!(doc.id, "doc_123");
    assert!(matches!(doc.get_value("title"), Some(Value::String(s)) if s == "Server Crash"));
}

#[test]
fn test_valid_document() {
    let form = create_test_form();
    let mut doc = Document::new("doc1", "ticket", "flow_ticket");
    doc.set_value("title", text("Server Down"));
    doc.set_value("severity", num(3));
    doc.set_value("status", text("Open"));

    assert!(validate_document(&doc, &form).is_ok());
}

#[test]
fn test_missing_required() {
    let form = create_test_form();
    let doc = Document::new("doc1", "ticket", "flow_ticket");

    let res = validate_document(&doc, &form);
    assert!(res.is_err());
    let errs = res.unwrap_err();
    assert!(matches!(errs[0], DocumentValidationError::MissingRequiredField(_)));
}

#[test]
fn test_type_mismatch() {
    let form = create_test_form();
    let mut doc = Document::new("doc1", "ticket", "flow_ticket");
    doc.set_value("title", text("Valid"));
    doc.set_value("severity", text("Five"));

    let res = validate_document(&doc, &form);
    assert!(res.is_err());
    assert!(format!("{:?}", res.unwrap_err()).contains("InvalidType"));
}

#[test]
fn test_number_range() {
    let form = create_test_form();
    let mut doc = Document::new("doc1", "ticket", "flow_ticket");
    doc.set_value("title", text("Valid"));
    doc.set_value("severity", num(10));

    let res = validate_document(&doc, &form);
    assert!(res.is_err());
    assert!(matches!(res.unwrap_err()[0], DocumentValidationError::ValueTooHigh { .. }));
}

#[test]
fn test_select_options() {
    let form = create_test_form();
    let mut doc = Document::new("doc1", "ticket", "flow_ticket");
    doc.set_value("title", text("Valid"));
    doc.set_value("status", text("In Progress"));

    let res = validate_document(&doc, &form);
    assert!(res.is_err());
    assert!(matches!(res.unwrap_err()[0], DocumentValidationError::InvalidSelection { .. }));
}

#[test]
fn test_valid_transitions() {
    let wf = create_simple_workflow();
    let mut doc = Document::new("doc1", "form_ticket", "wf_ticket");

    assert!(transition(&mut doc, &wf, "draft").is_ok());
    assert_eq!(doc.current_phase, "draft");

    assert!(transition(&mut doc, &wf, "review").is_ok());
    assert_eq!(doc.current_phase, "review");

    assert!(transition(&mut doc, &wf, "closed").is_ok());
    assert_eq!(doc.current_phase, "closed");
}

#[test]
fn test_invalid_jump() {
    let wf = create_simple_workflow();
    let mut doc = Document::new("doc1", "doc_ticket", "wf_ticket");

    let _ = transition(&mut doc, &wf, "draft");

    let res = transition(&mut doc, &wf, "closed");
    assert!(res.is_err());
    assert!(matches!(res.unwrap_err(), WorkflowError::InvalidTransition { .. }));

    assert_eq!(doc.current_phase, "draft");
}

#[test]
fn test_workflow_mismatch() {
    let wf = create_simple_workflow();
    let mut doc = Document::new("doc1", "doc_ticket", "other_workflow_id");

    let res = transition(&mut doc, &wf, "draft");
    assert!(matches!(res.unwrap_err(), WorkflowError::WorkflowMismatch { .. }));
}

fn severity_doc(v: Value) -> Document {
    let mut doc = Document::new("doc1", "ticket", "flow_ticket");
    doc.set_value("title", text("Valid"));
    doc.set_value("severity", v);
    doc
}

#[test]
fn number_bounds_are_inclusive() {
    let form = create_test_form();
    let half = Decimal::new(false, 5, -1);
    let errs = validate_document(&severity_doc(Value::Number(half)), &form).unwrap_err();
    assert_eq!(
        errs,
        vec![DocumentValidationError::ValueTooLow {
            field_id: "severity".to_string(),
            value: half,
            min: Decimal::from_i64(1),
        }]
    );
    let errs = validate_document(&severity_doc(num(10)), &form).unwrap_err();
    assert_eq!(
        errs,
        vec![DocumentValidationError::ValueTooHigh {
            field_id: "severity".to_string(),
            value: Decimal::from_i64(10),
            max: Decimal::from_i64(5),
        }]
    );
    assert_eq!(validate_document(&severity_doc(num(3)), &form), Ok(()));
    assert_eq!(validate_document(&severity_doc(num(1)), &form), Ok(()));
    assert_eq!(validate_document(&severity_doc(num(5)), &form), Ok(()));
    assert_eq!(validate_document(&severity_doc(Value::Number(Decimal::new(false, 50, -1))), &form), Ok(()));
}

#[test]
fn select_rejects_unknown_option() {
    let form = create_test_form();
    let mut doc = Document::new("doc1", "ticket", "flow_ticket");
    doc.set_value("title", text("Valid"));
    doc.set_value("status", text("InProgress"));
    let errs = validate_document(&doc, &form).unwrap_err();
    assert_eq!(
        errs,
        vec![DocumentValidationError::InvalidSelection {
            field_id: "status".to_string(),
            value: "InProgress".to_string(),
            allowed: vec!["Open".to_string(), "Closed".to_string()],
        }]
    );
}

#[test]
fn validation_is_repeatable() {
    let form = create_test_form();
    let mut doc = Document::new("doc1", "ticket", "flow_ticket");
    doc.set_value("severity", text("Five"));
    doc.set_value("status", num(2));
    let first = validate_document(&doc, &form);
    let second = validate_document(&doc, &form);
    assert_eq!(first, second);
    assert_eq!(first.unwrap_err().len(), 3);
}

#[test]
fn every_field_error_is_reported_in_order() {
    let form = create_test_form();
    let mut doc = Document::new("doc1", "ticket", "flow_ticket");
    doc.set_value("title", Value::Null);
    doc.set_value("severity", Value::Bool(true));
    doc.set_value("status", num(1));
    doc.set_value("undeclared", Value::Null);
    let errs = validate_document(&doc, &form).unwrap_err();
    assert_eq!(
        errs,
        vec![
            DocumentValidationError::MissingRequiredField("title".to_string()),
            DocumentValidationError::InvalidType {
                field_id: "severity".to_string(),
                expected_type: "Number".to_string(),
                got_type: "Boolean".to_string(),
            },
            DocumentValidationError::InvalidType {
                field_id: "status".to_string(),
                expected_type: "String".to_string(),
                got_type: "Number".to_string(),
            },
        ]
    );
}

#[test]
fn null_optional_fields_are_skipped() {
    let form = create_test_form();
    let mut doc = Document::new("doc1", "ticket", "flow_ticket");
    doc.set_value("title", text("t"));
    doc.set_value("severity", Value::Null);
    assert_eq!(validate_document(&doc, &form), Ok(()));
}

#[test]
fn form_mismatch_is_the_only_error() {
    let form = create_test_form();
    let doc = Document::new("doc1", "other", "flow_ticket");
    assert_eq!(
        validate_document(&doc, &form),
        Err(vec![DocumentValidationError::FormIdMismatch {
            doc_form: "other".to_string(),
            def_id: "ticket".to_string(),
        }])
    );
}

fn kinds_form() -> FormDefinition {
    FormBuilder::new("kinds", "Kinds")
        .add_field(FieldBuilder::new("notes", "Notes", FieldType::TextArea).build().unwrap())
        .add_field(FieldBuilder::new("flag", "Flag", FieldType::Boolean).build().unwrap())
        .add_field(FieldBuilder::new("when", "When", FieldType::DateTime).build().unwrap())
        .add_field(
            FieldBuilder::new(
                "tags",
                "Tags",
                FieldType::Select { options: vec!["a".into(), "b".into()], allow_multiple: true },
            )
            .build()
            .unwrap(),
        )
        .add_field(
            FieldBuilder::new("free", "Free", FieldType::Number { min: None, max: None })
                .build()
                .unwrap(),
        )
        .build()
        .unwrap()
}

#[test]
fn other_kinds_accept_good_values() {
    let form = kinds_form();
    let mut doc = Document::new("d", "kinds", "w");
    doc.set_value("notes", text("long\ntext"));
    doc.set_value("flag", Value::Bool(false));
    doc.set_value("when", text("2024-05-01T12:30:00Z"));
    doc.set_value("tags", Value::Array(vec![text("b"), text("a")]));
    doc.set_value("free", Value::Number(Decimal::new(true, 123456, -3)));
    assert_eq!(validate_document(&doc, &form), Ok(()));
    doc.set_value("when", text("2024-05-01T12:30:00.5+02:00"));
    doc.set_value("tags", Value::Array(vec![]));
    assert_eq!(validate_document(&doc, &form), Ok(()));
}

#[test]
fn other_kinds_reject_bad_values() {
    let form = kinds_form();
    let mut doc = Document::new("d", "kinds", "w");
    doc.set_value("notes", Value::Object(vec![]));
    doc.set_value("flag", text("true"));
    doc.set_value("when", text("2024-05-01"));
    doc.set_value("tags", Value::Array(vec![text("a"), num(1), text("zzz")]));
    doc.set_value("free", Value::Array(vec![]));
    let errs = validate_document(&doc, &form).unwrap_err();
    assert_eq!(
        errs,
        vec![
            DocumentValidationError::InvalidType {
                field_id: "notes".to_string(),
                expected_type: "String".to_string(),
                got_type: "Object".to_string(),
            },
            DocumentValidationError::InvalidType {
                field_id: "flag".to_string(),
                expected_type: "Boolean".to_string(),
                got_type: "String".to_string(),
            },
            DocumentValidationError::InvalidDateFormat {
                field_id: "when".to_string(),
                value: "2024-05-01".to_string(),
            },
            DocumentValidationError::InvalidType {
                field_id: "tags".to_string(),
                expected_type: "String".to_string(),
                got_type: "Number".to_string(),
            },
            DocumentValidationError::InvalidType {
                field_id: "free".to_string(),
                expected_type: "Number".to_string(),
                got_type: "Array".to_string(),
            },
        ]
    );
}

#[test]
fn date_and_multi_select_shape_errors() {
    let form = kinds_form();
    let mut doc = Document::new("d", "kinds", "w");
    doc.set_value("when", num(20240501));
    doc.set_value("tags", text("a"));
    let errs = validate_document(&doc, &form).unwrap_err();
    assert_eq!(
        errs,
        vec![
            DocumentValidationError::InvalidType {
                field_id: "when".to_string(),
                expected_type: "String (ISO 8601)".to_string(),
                got_type: "Number".to_string(),
            },
            DocumentValidationError::InvalidType {
                field_id: "tags".to_string(),
                expected_type: "Array".to_string(),
                got_type: "String".to_string(),
            },
        ]
    );
    doc.set_value("when", text("not a date"));
    doc.set_value("tags", Value::Array(vec![text("c")]));
    let errs = validate_document(&doc, &form).unwrap_err();
    assert!(matches!(errs[0], DocumentValidationError::InvalidDateFormat { .. }));
    assert!(matches!(&errs[1], DocumentValidationError::InvalidSelection { value, .. } if value == "c"));
}

#[test]
fn check_date_takes_the_parse_result() {
    assert_eq!(molten::validator::check_date("when", "x", true), Ok(()));
    assert_eq!(
        molten::validator::check_date("when", "x", false),
        Err(DocumentValidationError::InvalidDateFormat {
            field_id: "when".to_string(),
            value: "x".to_string(),
        })
    );
}

#[test]
fn set_value_replaces_and_keeps_others() {
    let mut doc = Document::new("d", "f", "w");
    assert_eq!(doc.current_phase, "");
    assert!(doc.data.is_empty());
    assert_eq!(doc.created_at, doc.updated_at);
    doc.set_value("a", num(1));
    doc.set_value("b", num(2));
    doc.set_value("a", text("x"));
    assert_eq!(doc.data.len(), 2);
    assert!(matches!(doc.get_value("a"), Some(Value::String(s)) if s == "x"));
    assert!(matches!(doc.get_value("b"), Some(Value::Number(d)) if *d == Decimal::from_i64(2)));
    assert!(doc.get_value("c").is_none());
    assert_eq!(Value::Null.kind(), "Null");
    assert!(Value::Null.is_null());
    assert!(!num(0).is_null());
}

#[test]
fn transition_walks_the_ticket_workflow() {
    let wf = create_simple_workflow();
    let mut doc = Document::new("doc1", "form_ticket", "wf_ticket");
    assert_eq!(transition(&mut doc, &wf, "draft"), Ok(()));
    assert_eq!(
        transition(&mut doc, &wf, "closed"),
        Err(WorkflowError::InvalidTransition {
            current: "draft".to_string(),
            target: "closed".to_string(),
        })
    );
    assert_eq!(doc.current_phase, "draft");
    assert_eq!(transition(&mut doc, &wf, "review"), Ok(()));
    assert_eq!(transition(&mut doc, &wf, "draft"), Ok(()));
    assert_eq!(doc.current_phase, "draft");
}

#[test]
fn mismatch_fails_for_every_target() {
    let wf = create_simple_workflow();
    for target in ["draft", "review", "closed", "nowhere", ""] {
        let mut doc = Document::new("doc1", "form", "other");
        assert_eq!(
            transition(&mut doc, &wf, target),
            Err(WorkflowError::WorkflowMismatch {
                doc_wf: "other".to_string(),
                provided_wf: "wf_ticket".to_string(),
            })
        );
        assert_eq!(doc.current_phase, "");
    }
}

#[test]
fn new_documents_enter_only_at_the_start() {
    let wf = create_simple_workflow();
    let mut doc = Document::new("doc1", "form", "wf_ticket");
    assert_eq!(
        transition(&mut doc, &wf, "review"),
        Err(WorkflowError::InvalidTransition {
            current: "WAITING_TO_START".to_string(),
            target: "review".to_string(),
        })
    );
    assert_eq!(
        transition(&mut doc, &wf, "archived"),
        Err(WorkflowError::UnknownPhase("archived".to_string()))
    );
    assert_eq!(doc.current_phase, "");

    let no_start = WorkflowBuilder::new("wf_ticket", "No start")
        .add_phase(Phase::new("review", "Review", PhaseType::Normal))
        .build()
        .unwrap();
    assert_eq!(
        transition(&mut doc, &no_start, "review"),
        Err(WorkflowError::UnknownPhase("No start phase defined".to_string()))
    );
    assert_eq!(doc.current_phase, "");
}

#[test]
fn create_document_enters_the_start_phase() {
    let form = create_test_form();
    let wf = create_simple_workflow();
    let data = vec![("title".to_string(), text("Disk full")), ("severity".to_string(), num(2))];
    let doc = molten::create_document("d-1", &form, &wf, data).unwrap();
    assert_eq!(doc.id, "d-1");
    assert_eq!(doc.form_id, "ticket");
    assert_eq!(doc.workflow_id, "wf_ticket");
    assert_eq!(doc.current_phase, "draft");
    assert_eq!(doc.data.len(), 2);
    assert_eq!(doc.created_at, doc.updated_at);
}

#[test]
fn create_document_reports_validation_and_start_errors() {
    let form = create_test_form();
    let wf = create_simple_workflow();
    let res = molten::create_document("d-2", &form, &wf, vec![("severity".to_string(), num(9))]);
    assert_eq!(
        res.unwrap_err(),
        molten::ServiceError::DocumentValidationErrors(vec![
            DocumentValidationError::MissingRequiredField("title".to_string()),
            DocumentValidationError::ValueTooHigh {
                field_id: "severity".to_string(),
                value: Decimal::from_i64(9),
                max: Decimal::from_i64(5),
            },
        ])
    );
    let no_start = WorkflowBuilder::new("wf", "W")
        .add_phase(Phase::new("x", "X", PhaseType::End))
        .build()
        .unwrap();
    let res = molten::create_document("d-3", &form, &no_start, vec![]);
    assert_eq!(
        res.unwrap_err(),
        molten::ServiceError::WorkflowRuleViolation(WorkflowError::UnknownPhase(
            "No start phase defined".to_string()
        ))
    );
}
