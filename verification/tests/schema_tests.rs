use search::{DocData, DocOp, FieldConfig, RecordView, SchemaError, Step, StructConfig};

fn plain_field(name: &str) -> FieldConfig {
    FieldConfig {
        name: Some(name.to_string()),
        alias: None,
        facet: false,
        facet_fn: false,
        index: false,
        index_fn: false,
        prefix: None,
    }
}

fn city_schema() -> StructConfig {
    let mut name = plain_field("name");
    name.index = true;
    name.prefix = Some("XS".to_string());
    let mut population = plain_field("population");
    population.facet = true;
    StructConfig {
        name: "City".to_string(),
        fields: vec![name, population],
        doc_data: false,
        data_fn: false,
        lang: None,
        index: false,
        index_fn: false,
    }
}

fn city_record(name: &str, population: u32) -> RecordView {
    RecordView {
        texts: vec![name.to_string(), population.to_string()],
        values: vec![name.to_string(), population.to_string()],
        full_text: format!("{} {}", name, population),
        payload: String::new(),
    }
}

#[test]
fn test_index() {
    {}
}

#[test]
fn end_to_end_city_schema() {
    let (program, config) = city_schema().compile().unwrap();

    assert_eq!(config.prefix_for("name"), Some("XS".to_string()));
    assert_eq!(config.prefix_for("population"), None);

    assert_eq!(
        program.steps,
        vec![
            Step::EmitFacetValue { slot: 0, field: 1, custom: false },
            Step::EmitIndexedTerm { field: 0, prefix: Some("XS".to_string()), custom: false },
            Step::IncreaseTermPos,
        ]
    );

    let records = vec![
        city_record("Alpha", 10),
        city_record("Beta", 20),
        city_record("Gamma", 30),
    ];
    let plans = program.plan_batch(&records);
    assert_eq!(plans.len(), 3);

    // The record matched by `name:Beta` carries 20 in facet slot 0.
    assert_eq!(
        plans[1],
        vec![
            DocOp::SetValue { slot: 0, value: "20".to_string() },
            DocOp::IndexText { text: "Beta".to_string(), prefix: Some("XS".to_string()) },
            DocOp::IncreaseTermPos,
        ]
    );
}

#[test]
fn aliases_resolve_to_the_same_prefix() {
    let mut schema = city_schema();
    schema.fields[0].alias = Some("title".to_string());
    let (_, config) = schema.compile().unwrap();
    assert_eq!(config.prefix_for("name"), Some("XS".to_string()));
    assert_eq!(config.prefix_for("title"), Some("XS".to_string()));
}

#[test]
fn a_prefix_alone_implies_indexing() {
    let mut field = plain_field("code");
    field.prefix = Some("XC".to_string());
    let schema = StructConfig {
        name: "Rec".to_string(),
        fields: vec![field],
        doc_data: false,
        data_fn: false,
        lang: None,
        index: false,
        index_fn: false,
    };
    let (program, config) = schema.compile().unwrap();
    assert_eq!(config.prefix_for("code"), Some("XC".to_string()));
    assert_eq!(
        program.steps,
        vec![
            Step::EmitIndexedTerm { field: 0, prefix: Some("XC".to_string()), custom: false },
            Step::IncreaseTermPos,
        ]
    );
}

#[test]
fn unprefixed_indexed_fields_map_to_the_root_prefix() {
    let mut field = plain_field("body");
    field.index = true;
    let schema = StructConfig {
        name: "Rec".to_string(),
        fields: vec![field],
        doc_data: false,
        data_fn: false,
        lang: None,
        index: false,
        index_fn: false,
    };
    let (_, config) = schema.compile().unwrap();
    assert_eq!(config.prefix_for("body"), Some(String::new()));
}

#[test]
fn facet_slots_follow_declaration_order() {
    let mut a = plain_field("a");
    a.facet = true;
    let b = plain_field("b");
    let mut c = plain_field("c");
    c.facet_fn = true;
    let mut d = plain_field("d");
    d.facet = true;
    let schema = StructConfig {
        name: "Rec".to_string(),
        fields: vec![a, b, c, d],
        doc_data: false,
        data_fn: false,
        lang: None,
        index: false,
        index_fn: false,
    };
    let (program, _) = schema.compile().unwrap();
    assert_eq!(
        program.steps,
        vec![
            Step::EmitFacetValue { slot: 0, field: 0, custom: false },
            Step::EmitFacetValue { slot: 1, field: 2, custom: true },
            Step::EmitFacetValue { slot: 2, field: 3, custom: false },
        ]
    );
}

#[test]
fn compiling_twice_assigns_identical_slots() {
    let schema = city_schema();
    let (first, _) = schema.compile().unwrap();
    let (second, _) = schema.compile().unwrap();
    assert_eq!(first.steps, second.steps);
    assert_eq!(first.n_fields, second.n_fields);
}

#[test]
fn every_term_is_followed_by_a_position_gap() {
    let mut a = plain_field("a");
    a.index = true;
    let mut b = plain_field("b");
    b.index = true;
    let schema = StructConfig {
        name: "Rec".to_string(),
        fields: vec![a, b],
        doc_data: false,
        data_fn: false,
        lang: None,
        index: false,
        index_fn: false,
    };
    let (program, _) = schema.compile().unwrap();
    for (i, step) in program.steps.iter().enumerate() {
        if matches!(step, Step::EmitIndexedTerm { .. }) {
            assert_eq!(program.steps[i + 1], Step::IncreaseTermPos);
        }
    }
    assert_eq!(program.steps.len(), 4);
}

#[test]
fn unnamed_fields_are_an_unsupported_shape() {
    let mut field = plain_field("x");
    field.name = None;
    field.index = true;
    let schema = StructConfig {
        name: "Tuple".to_string(),
        fields: vec![field],
        doc_data: false,
        data_fn: false,
        lang: None,
        index: false,
        index_fn: false,
    };
    assert_eq!(schema.compile().unwrap_err(), SchemaError::UnsupportedShape);
}

#[test]
fn a_broken_language_is_fatal() {
    let mut schema = city_schema();
    schema.lang = Some("klingon".to_string());
    assert_eq!(
        schema.compile().unwrap_err(),
        SchemaError::UnsupportedLanguage
    );
}

#[test]
fn a_resolved_language_reaches_both_artifacts() {
    let mut schema = city_schema();
    schema.lang = Some("english".to_string());
    let (program, config) = schema.compile().unwrap();
    assert_eq!(program.lang, Some("english".to_string()));
    assert_eq!(config.lang, Some("english".to_string()));
    assert!(program.stoplist.as_ref().unwrap().is_stopword("The"));
    assert!(config.stoplist.as_ref().unwrap().is_stopword("the"));
}

#[test]
fn full_text_and_payload_steps_close_the_program() {
    let mut schema = city_schema();
    schema.index = true;
    schema.doc_data = true;
    let (program, _) = schema.compile().unwrap();
    let n = program.steps.len();
    assert_eq!(program.steps[n - 2], Step::EmitFullText { custom: false });
    assert_eq!(program.steps[n - 1], Step::SetPayload { mode: DocData::Display });
}

#[test]
fn custom_encoders_take_precedence() {
    let mut schema = city_schema();
    schema.index = true;
    schema.index_fn = true;
    schema.doc_data = true;
    schema.data_fn = true;
    let (program, _) = schema.compile().unwrap();
    let n = program.steps.len();
    assert_eq!(program.steps[n - 2], Step::EmitFullText { custom: true });
    assert_eq!(program.steps[n - 1], Step::SetPayload { mode: DocData::Custom });
}

#[test]
fn empty_schemas_compile_to_empty_artifacts() {
    let schema = StructConfig {
        name: "Empty".to_string(),
        fields: vec![],
        doc_data: false,
        data_fn: false,
        lang: None,
        index: false,
        index_fn: false,
    };
    let (program, config) = schema.compile().unwrap();
    assert!(program.steps.is_empty());
    assert!(config.prefixes.is_empty());
    assert_eq!(config.prefix_for("anything"), None);
}

#[test]
fn plans_check_the_record_shape() {
    let (program, _) = city_schema().compile().unwrap();
    let record = RecordView {
        texts: vec!["only-one".to_string()],
        values: vec!["only-one".to_string()],
        full_text: String::new(),
        payload: String::new(),
    };
    assert!(program.plan_checked(&record).is_none());
    assert!(program.plan_checked(&city_record("Alpha", 10)).is_some());
}

#[test]
fn payload_plans_carry_the_record_payload() {
    let mut schema = city_schema();
    schema.data_fn = true;
    let (program, _) = schema.compile().unwrap();
    let mut record = city_record("Alpha", 10);
    record.payload = "opaque-bytes".to_string();
    let ops = program.plan_checked(&record).unwrap();
    assert_eq!(
        ops[ops.len() - 1],
        DocOp::SetData { data: "opaque-bytes".to_string() }
    );
}
