use molten::validation::{Attr, PathStep, Rule};
use molten::{
    ConfigFormat, Decimal, FieldBuilder, FieldDefinition, FieldType, FormBuilder, Phase, PhaseType,
    Transition, WorkflowBuilder, WorkflowGraph,
};

fn create_field(id: &str) -> FieldDefinition {
    FieldBuilder::new(id, "Label", FieldType::Text).build().unwrap()
}

#[test]
fn test_field_builder() {
    let field = FieldBuilder::new("test_id", "Test Label", FieldType::Text)
        .required(true)
        .with_description("A test field")
        .build()
        .expect("Field builder should produce a valid FieldDefinition here.");

    assert_eq!(field.id(), "test_id");
    assert_eq!(field.is_required(), true);
    assert_eq!(field.description(), Some("A test field"));
    assert!(matches!(field.field_type(), FieldType::Text));
}

#[test]
fn test_form_builder_valid() {
    let first_name = create_field("first_name");
    let last_name = create_field("last_name");

    let form = FormBuilder::new("user_profile", "User Profile")
        .add_field(first_name.clone())
        .add_field(last_name.clone())
        .build();

    assert!(form.is_ok());
    let form = form.unwrap();
    assert_eq!(form.fields().len(), 2);

    let form = FormBuilder::new("user_profile", "User Profile")
        .with_fields(vec![first_name, last_name])
        .build();

    assert!(form.is_ok());
    let form = form.unwrap();
    assert_eq!(form.fields().len(), 2);
}

#[test]
fn test_form_duplicate_fields() {
    let form_res = FormBuilder::new("signup", "Sign Up")
        .add_field(create_field("email"))
        .add_field(create_field("email"))
        .build();

    assert!(form_res.is_err());

    let err = form_res.unwrap_err();
    assert!(err.to_string().contains("duplicate_field_id"));
}

#[test]
fn test_workflow_integrity() {
    let res = WorkflowBuilder::new("wf_1", "Simple Workflow")
        .add_phase(Phase::new("start", "Start", PhaseType::Start))
        .add_phase(Phase::new("end", "End", PhaseType::End))
        .add_transition(Transition::new("finish", "start", "end"))
        .build();

    assert!(res.is_ok());
    let wf = res.unwrap();
    assert!(wf.can_transition("start", "end"));
    assert!(!wf.can_transition("end", "start"));
}

#[test]
fn test_broken_reference() {
    let res = WorkflowBuilder::new("wf_bad", "Broken Workflow")
        .add_phase(Phase::new("start", "Start", PhaseType::Start))
        .add_transition(Transition::new("finish", "start", "end"))
        .build();

    assert!(res.is_err());
    let err_msg = res.unwrap_err().to_string();
    assert!(err_msg.contains("invalid_transition_target"));
}

#[test]
fn test_get_start_phase() {
    let wf = WorkflowBuilder::new("wf_1", "Test")
        .add_phase(Phase::new("draft", "Draft", PhaseType::Start))
        .build()
        .unwrap();

    let start = wf.get_start_phase().unwrap();
    assert_eq!(start.id, "draft");
    assert!(matches!(start.phase_type, PhaseType::Start));
}

#[test]
fn valid_field_getters_return_inputs() {
    let id = "a".repeat(64);
    let label = "L".repeat(100);
    let options = vec!["x".to_string(), "y".to_string()];
    let field = FieldBuilder::new(
        &id,
        &label,
        FieldType::Select { options: options.clone(), allow_multiple: true },
    )
    .build()
    .unwrap();
    assert_eq!(field.id(), id);
    assert_eq!(field.label(), label);
    assert_eq!(field.is_required(), false);
    assert_eq!(field.description(), None);
    assert_eq!(
        field.field_type(),
        &FieldType::Select { options, allow_multiple: true }
    );
    for id in ["A", "z9", "snake_case-id", "0-_"] {
        let f = FieldBuilder::new(id, "x", FieldType::Boolean).build().unwrap();
        assert_eq!(f.id(), id);
        assert_eq!(f.label(), "x");
    }
}

#[test]
fn field_id_and_label_limits() {
    let long_id = "a".repeat(65);
    let err = FieldBuilder::new(&long_id, "ok", FieldType::Text).build().unwrap_err();
    assert_eq!(err.findings.len(), 1);
    assert_eq!(err.findings[0].rule, Rule::Length { min: 1, max: 64 });
    assert_eq!(err.findings[0].path, vec![PathStep::Attr(Attr::Id)]);
    assert_eq!(err.findings[0].value, long_id);
    assert!(err.to_string().contains("length"));

    let long_label = "a".repeat(101);
    let err = FieldBuilder::new("this_id_is_an_ok_length", &long_label, FieldType::Text)
        .build()
        .unwrap_err();
    assert_eq!(err.findings.len(), 1);
    assert_eq!(err.findings[0].rule, Rule::Length { min: 1, max: 100 });
    assert_eq!(err.findings[0].path, vec![PathStep::Attr(Attr::Label)]);
    assert_eq!(err.to_string(), "length; ");
}

#[test]
fn field_findings_are_all_reported() {
    let err = FieldBuilder::new("", "", FieldType::Text).build().unwrap_err();
    assert_eq!(err.findings.len(), 2);
    assert_eq!(err.to_string(), "length; length; ");

    let err = FieldBuilder::new("has space", "", FieldType::Text).build().unwrap_err();
    assert_eq!(err.findings.len(), 2);
    assert_eq!(err.findings[0].rule, Rule::IdCharacters);
    assert_eq!(err.findings[0].value, "has space");
    assert_eq!(err.findings[1].rule, Rule::Length { min: 1, max: 100 });
    assert_eq!(err.to_string(), "id_characters; length; ");
    assert!(!err.is_empty());
}

#[test]
fn form_duplicates_point_at_the_repeated_field() {
    let err = FormBuilder::new("signup", "Sign Up")
        .add_field(create_field("email"))
        .add_field(create_field("name"))
        .add_field(create_field("email"))
        .add_field(create_field("email"))
        .build()
        .unwrap_err();
    assert_eq!(err.findings.len(), 2);
    assert_eq!(
        err.findings[0].path,
        vec![PathStep::Attr(Attr::Fields), PathStep::Index(2), PathStep::Attr(Attr::Id)]
    );
    assert_eq!(err.findings[0].rule, Rule::DuplicateFieldId);
    assert_eq!(err.findings[0].value, "email");
    assert_eq!(err.findings[1].path[1], PathStep::Index(3));
}

#[test]
fn form_id_name_and_version() {
    let form = FormBuilder::new("bug-report_2", "Bug Report").version(3).build().unwrap();
    assert_eq!(form.id(), "bug-report_2");
    assert_eq!(form.name(), "Bug Report");
    assert_eq!(form.version(), 3);
    assert_eq!(FormBuilder::new("f", "F").build().unwrap().version(), 1);
    assert_eq!(molten::form::default_version(), 1);

    let err = FormBuilder::new("incident report", "Report").build().unwrap_err();
    assert_eq!(err.findings.len(), 1);
    assert_eq!(err.findings[0].rule, Rule::IdCharacters);

    let err = FormBuilder::new("ok", &"n".repeat(101)).build().unwrap_err();
    assert_eq!(err.findings[0].path, vec![PathStep::Attr(Attr::Name)]);
}

#[test]
fn workflow_dangling_source_and_target() {
    let err = WorkflowBuilder::new("wf", "W")
        .add_phase(Phase::new("a", "A", PhaseType::Start))
        .add_transition(Transition::new("go", "a", "a"))
        .add_transition(Transition::new("back", "ghost", "void"))
        .build()
        .unwrap_err();
    assert_eq!(err.findings.len(), 2);
    assert_eq!(err.findings[0].rule, Rule::InvalidTransitionSource);
    assert_eq!(err.findings[0].value, "ghost");
    assert_eq!(
        err.findings[0].path,
        vec![PathStep::Attr(Attr::Transitions), PathStep::Index(1), PathStep::Attr(Attr::From)]
    );
    assert_eq!(err.findings[1].rule, Rule::InvalidTransitionTarget);
    assert_eq!(err.findings[1].value, "void");
    assert_eq!(err.to_string(), "invalid_transition_source; invalid_transition_target; ");
}

#[test]
fn workflow_length_and_integrity_findings_merge() {
    let err = WorkflowBuilder::new("", "W")
        .add_phase(Phase::new("a", "", PhaseType::Start))
        .add_transition(Transition::new("go", "a", "b"))
        .build()
        .unwrap_err();
    assert_eq!(err.to_string(), "length; length; invalid_transition_target; ");
    assert_eq!(
        err.findings[1].path,
        vec![PathStep::Attr(Attr::Phases), PathStep::Index(0), PathStep::Attr(Attr::Label)]
    );
}

#[test]
fn workflow_getters_and_cycles() {
    let wf = WorkflowBuilder::new("wf_ticket", "Ticket Workflow")
        .add_phase(Phase::new("draft", "Draft", PhaseType::Start))
        .add_phase(Phase::new("review", "Review", PhaseType::Normal))
        .add_transition(Transition::new("submit", "draft", "review"))
        .add_transition(Transition::new("reject", "review", "draft"))
        .build()
        .unwrap();
    assert_eq!(wf.id(), "wf_ticket");
    assert_eq!(wf.name(), "Ticket Workflow");
    assert_eq!(wf.phases().len(), 2);
    assert_eq!(wf.transitions().len(), 2);
    assert_eq!(wf.transitions()[1].name, "reject");
    assert!(wf.can_transition("review", "draft"));
    assert_eq!(wf.get_phase("review").unwrap().label, "Review");
    assert!(wf.get_phase("closed").is_none());
}

#[test]
fn start_phase_is_the_first_of_its_type() {
    let wf = WorkflowBuilder::new("wf", "W")
        .add_phase(Phase::new("n", "N", PhaseType::Normal))
        .add_phase(Phase::new("s1", "S1", PhaseType::Start))
        .add_phase(Phase::new("s2", "S2", PhaseType::Start))
        .build()
        .unwrap();
    assert_eq!(wf.get_start_phase().unwrap().id, "s1");
    let none = WorkflowBuilder::new("wf", "W")
        .add_phase(Phase::new("n", "N", PhaseType::End))
        .build()
        .unwrap();
    assert!(none.get_start_phase().is_none());
}

#[test]
fn config_format_from_extension() {
    assert_eq!(ConfigFormat::from_extension("yaml"), Some(ConfigFormat::Yaml));
    assert_eq!(ConfigFormat::from_extension("YML"), Some(ConfigFormat::Yaml));
    assert_eq!(ConfigFormat::from_extension("Json"), Some(ConfigFormat::Json));
    assert_eq!(ConfigFormat::from_extension("TOML"), Some(ConfigFormat::Toml));
    assert_eq!(ConfigFormat::from_extension("txt"), None);
    assert_eq!(ConfigFormat::from_extension(""), None);
    assert_eq!(ConfigFormat::from_lowercase_extension("YAML"), None);
    assert_eq!(ConfigFormat::from_lowercase_extension("toml"), Some(ConfigFormat::Toml));
}

#[test]
fn decimal_comparisons_are_exact() {
    let half = Decimal::new(false, 5, -1);
    let one = Decimal::from_i64(1);
    let ten_tenths = Decimal::new(false, 10, -1);
    assert!(half.less_than(&one));
    assert!(!one.less_than(&half));
    assert!(!one.less_than(&ten_tenths));
    assert!(!ten_tenths.less_than(&one));
    let minus_two = Decimal::from_i64(-2);
    assert!(minus_two.less_than(&half));
    assert!(Decimal::new(true, 3, 0).less_than(&Decimal::new(true, 25, -1)));
    let zero = Decimal::new(false, 0, 5);
    let minus_zero = Decimal::new(true, 0, -3);
    assert!(!zero.less_than(&minus_zero));
    assert!(!minus_zero.less_than(&zero));
    let huge = Decimal::new(false, 1, 40);
    assert!(Decimal::new(false, u64::MAX, 0).less_than(&huge));
    assert!(!huge.less_than(&Decimal::new(false, u64::MAX, 19)));
    assert!(Decimal::new(false, 1, 19).less_than(&Decimal::new(false, 2, 19)));
    assert_eq!(Decimal::from_i64(i64::MIN), Decimal::new(true, 9223372036854775808, 0));
}

#[test]
fn decimal_parse_reads_number_text() {
    assert_eq!(Decimal::parse("0"), Some(Decimal::new(false, 0, 0)));
    assert_eq!(Decimal::parse("42"), Some(Decimal::new(false, 42, 0)));
    assert_eq!(Decimal::parse("-0.5"), Some(Decimal::new(true, 5, -1)));
    assert_eq!(Decimal::parse("12.50e-3"), Some(Decimal::new(false, 1250, -5)));
    assert_eq!(Decimal::parse("1e300"), Some(Decimal::new(false, 1, 300)));
    assert_eq!(Decimal::parse("1.5E+2"), Some(Decimal::new(false, 15, 1)));
    assert_eq!(
        Decimal::parse("18446744073709551615"),
        Some(Decimal::new(false, u64::MAX, 0))
    );
    assert_eq!(Decimal::parse("18446744073709551616"), None);
    assert_eq!(Decimal::parse("1.8446744073709551616"), None);
    assert_eq!(Decimal::parse("1e123456789"), Some(Decimal::new(false, 1, 123456789)));
    assert_eq!(Decimal::parse("1e1234567890"), None);
    for bad in ["", "-", ".5", "5.", "1e", "1e+", "--1", "1.2.3", "1e2e3", "x", "+1", " 1", "1_0"] {
        assert_eq!(Decimal::parse(bad), None, "{bad}");
    }
}
