use std::collections::VecDeque;

use cloud_config_validator::error::Error;
use cloud_config_validator::json::Json;
use cloud_config_validator::validator::{
    AnnotationUnit, BasicOutput, CloudConfig, ConfigAnnotation, ConfigError, Draft, ErrorUnit,
    Validation, Validator,
};

fn json(text: &str) -> Json {
    Json::parse(text).expect("a JSON text")
}

fn value(text: &str) -> serde_json::Value {
    serde_json::from_str(text).expect("a JSON text")
}

fn units_of(output: jsonschema::output::BasicOutput) -> BasicOutput {
    match output {
        jsonschema::output::BasicOutput::Valid(units) => BasicOutput::Valid(
            units
                .iter()
                .map(|unit| AnnotationUnit {
                    value: json(&unit.value().to_string()),
                    instance_location: unit.instance_location().to_string(),
                })
                .collect(),
        ),
        jsonschema::output::BasicOutput::Invalid(units) => BasicOutput::Invalid(
            units
                .iter()
                .map(|unit| ErrorUnit {
                    description: unit.error_description().to_string(),
                    instance_location: unit.instance_location().to_string(),
                })
                .collect(),
        ),
    }
}

const SWITCH_SCHEMA: &str = r#"{
    "type": "object",
    "properties": {
        "ssh_pwauth": {"type": "boolean"},
        "old_key": {"type": "string", "deprecated": true, "changed_version": "22.1",
                    "deprecated_description": "Use new_key instead"}
    },
    "additionalProperties": false
}"#;

fn switch_validator() -> Validator {
    Validator::try_from(&json(SWITCH_SCHEMA)).expect("a valid schema")
}

fn header_error() -> ConfigError {
    ConfigError {
        description: "Cloud-config needs to begin with \"#cloud-config\"".to_string(),
        instance_path: String::new(),
    }
}

#[test]
fn deprecated_annotations() {
    let schema = value(
        r#"{
            "properties": {
              "x": {
                "properties": {
                  "y": {
                    "type": "integer",
                    "deprecated_description": "my description",
                    "deprecated": true
                  }
                },
                "additionalProperties": false
              }
            }
          }"#,
    );
    let compiled_schema = jsonschema::JSONSchema::options()
        .with_draft(jsonschema::Draft::Draft7)
        .compile(&schema)
        .expect("A valid schema");
    let instance = value(r#"{"x": {"y": 1}}"#);
    let out = compiled_schema.apply(&instance).basic();

    let validation: Validation = Validation::from(units_of(out));
    let expected_validation = Validation {
        is_valid: true,
        annotations: vec![ConfigAnnotation {
            description: "Deprecated. my description".to_string(),
            instance_path: "/x/y".to_string(),
        }],
        errors: VecDeque::new(),
    };
    assert_eq!(expected_validation, validation);
}

#[test]
fn config_error() {
    let schema = value(
        r#"{
            "properties": {
              "x": {
                "properties": {
                  "y": {
                    "type": "integer",
                    "deprecated": true
                  }
                },
                "additionalProperties": false
              }
            }
          }"#,
    );
    let compiled_schema = jsonschema::JSONSchema::options()
        .with_draft(jsonschema::Draft::Draft7)
        .compile(&schema)
        .expect("A valid schema");
    let instance = value(r#"{"x": {"y": 1.5}}"#);
    let out = compiled_schema.apply(&instance).basic();

    let validation: Validation = Validation::from(units_of(out));
    let expected_validation = Validation {
        is_valid: false,
        annotations: vec![],
        errors: VecDeque::from(vec![ConfigError {
            description: "1.5 is not of type \"integer\"".to_string(),
            instance_path: "/x/y".to_string(),
        }]),
    };
    assert_eq!(expected_validation, validation);
}

#[test]
fn validator_invalid_yaml() {
    let validator = Validator::from_vendored_schema(SWITCH_SCHEMA).unwrap();
    let validation = validator.validate_yaml("@asdf");
    let error_msg = match validation {
        Err(Error::InvalidYaml(e)) => e.to_string(),
        _ => panic!("unexpected result"),
    };
    assert_eq!(
        "found character that cannot start any token, while scanning for the next token",
        error_msg
    );
}

#[test]
fn drafts_differ_in_what_they_take_for_an_integer() {
    let schema = json(r#"{"type": "integer"}"#);
    let instance = value("1.0");
    let draft4 = Validator::with_draft(&schema, Draft::Draft4).unwrap();
    let draft6 = Validator::with_draft(&schema, Draft::Draft6).unwrap();
    let draft7 = Validator::with_draft(&schema, Draft::Draft7).unwrap();
    assert!(!draft4.validate(&instance).is_valid);
    assert!(draft6.validate(&instance).is_valid);
    assert!(draft7.validate(&instance).is_valid);
    assert!(!Validator::try_from(&schema).unwrap().validate(&instance).is_valid);
}

#[test]
fn validator_of_draft7_reports_deprecated_keys() {
    let schema = json(
        r#"{"properties": {"x": {"properties": {"y": {
            "type": "integer",
            "deprecated_description": "my description",
            "deprecated": true
        }}, "additionalProperties": false}}}"#,
    );
    let validator = Validator::with_draft(&schema, Draft::Draft7).expect("A valid schema");
    let expected_validation = Validation {
        is_valid: true,
        annotations: vec![ConfigAnnotation {
            description: "Deprecated. my description".to_string(),
            instance_path: "/x/y".to_string(),
        }],
        errors: VecDeque::new(),
    };
    assert_eq!(validator.validate(&value(r#"{"x": {"y": 1}}"#)), expected_validation);
    let expected_validation = Validation {
        is_valid: false,
        annotations: vec![],
        errors: VecDeque::from(vec![ConfigError {
            description: "1.5 is not of type \"integer\"".to_string(),
            instance_path: "/x/y".to_string(),
        }]),
    };
    assert_eq!(validator.validate(&value(r#"{"x": {"y": 1.5}}"#)), expected_validation);
}

#[test]
fn validate_reports_annotations_of_the_schema() {
    let validator = switch_validator();
    let validation = validator.validate(&value(r#"{"old_key": "x"}"#));
    let expected = Validation {
        is_valid: true,
        annotations: vec![ConfigAnnotation {
            description: "Deprecated in version 22.1. Use new_key instead".to_string(),
            instance_path: "/old_key".to_string(),
        }],
        errors: VecDeque::new(),
    };
    assert_eq!(validation, expected);
}

#[test]
fn validate_reports_errors_of_the_schema() {
    let validator = switch_validator();
    let validation = validator.validate(&value(r#"{"ssh_pwauth": 3}"#));
    let expected = Validation {
        is_valid: false,
        annotations: vec![],
        errors: VecDeque::from(vec![ConfigError {
            description: "3 is not of type \"boolean\"".to_string(),
            instance_path: "/ssh_pwauth".to_string(),
        }]),
    };
    assert_eq!(validation, expected);
}

#[test]
fn document_with_header_is_valid() {
    let validation = switch_validator().validate_yaml("#cloud-config\nssh_pwauth: true").unwrap();
    assert!(validation.is_valid);
    assert!(validation.errors.is_empty());
    assert!(validation.annotations.is_empty());
}

#[test]
fn document_without_header_is_not_valid() {
    let validation = switch_validator().validate_yaml("ssh_pwauth: true").unwrap();
    let expected = Validation {
        is_valid: false,
        annotations: vec![],
        errors: VecDeque::from(vec![header_error()]),
    };
    assert_eq!(validation, expected);
}

#[test]
fn header_error_comes_before_the_errors_of_the_schema() {
    let validation = switch_validator().validate_yaml("ssh_pwauth: 3").unwrap();
    let expected = Validation {
        is_valid: false,
        annotations: vec![],
        errors: VecDeque::from(vec![
            header_error(),
            ConfigError {
                description: "3 is not of type \"boolean\"".to_string(),
                instance_path: "/ssh_pwauth".to_string(),
            },
        ]),
    };
    assert_eq!(validation, expected);
}

#[test]
fn header_error_keeps_the_annotations() {
    let validation = switch_validator().validate_yaml("old_key: x").unwrap();
    assert!(!validation.is_valid);
    assert_eq!(validation.errors, VecDeque::from(vec![header_error()]));
    assert_eq!(
        validation.annotations,
        vec![ConfigAnnotation {
            description: "Deprecated in version 22.1. Use new_key instead".to_string(),
            instance_path: "/old_key".to_string(),
        }]
    );
}

#[test]
fn header_has_to_stand_at_the_very_beginning() {
    let validator = switch_validator();
    assert!(!validator.validate_yaml(" #cloud-config\nssh_pwauth: true").unwrap().is_valid);
    assert!(!validator.validate_yaml("#cloud-confi\nssh_pwauth: true").unwrap().is_valid);
    assert!(validator.validate_yaml("#cloud-config").unwrap().is_valid == false);
    assert!(validator.validate_yaml("#cloud-config-more\nssh_pwauth: false").unwrap().is_valid);
}

#[test]
fn unfinished_yaml_is_refused() {
    let outcome = switch_validator().validate_yaml("\"a");
    assert_eq!(
        outcome,
        Err(Error::InvalidYaml(
            "found unexpected end of stream at line 1 column 3, while scanning a quoted scalar"
                .to_string()
        ))
    );
}

#[test]
fn validate_parsed_takes_the_reading_as_it_is_given() {
    let validator = switch_validator();
    assert_eq!(
        validator.validate_parsed("ssh_pwauth: true", Err("no yaml".to_string())),
        Err(Error::InvalidYaml("no yaml".to_string()))
    );
    let instance = value(r#"{"ssh_pwauth": true}"#);
    let with_header = validator.validate_parsed("#cloud-config\n", Ok(instance.clone())).unwrap();
    assert_eq!(
        with_header,
        Validation { is_valid: true, annotations: vec![], errors: VecDeque::new() }
    );
    let without_header = validator.validate_parsed("---", Ok(instance)).unwrap();
    assert_eq!(
        without_header,
        Validation {
            is_valid: false,
            annotations: vec![],
            errors: VecDeque::from(vec![header_error()]),
        }
    );
}

#[test]
fn with_header_check_adds_to_a_given_result() {
    let evaluated = Validation {
        is_valid: true,
        annotations: vec![ConfigAnnotation {
            description: "Changed".to_string(),
            instance_path: "/a".to_string(),
        }],
        errors: VecDeque::new(),
    };
    assert_eq!(evaluated.clone().with_header_check("#cloud-config\na: 1"), evaluated);
    let checked = evaluated.clone().with_header_check("a: 1");
    assert!(!checked.is_valid);
    assert_eq!(checked.annotations, evaluated.annotations);
    assert_eq!(checked.errors, VecDeque::from(vec![header_error()]));
}

#[test]
fn changed_annotation_is_described() {
    let unit = AnnotationUnit {
        value: json(
            r#"{"changed": true, "changed_version": "23.2", "changed_description": "Now a list"}"#,
        ),
        instance_location: "/k".to_string(),
    };
    assert_eq!(
        ConfigAnnotation::marked(&unit),
        Some(ConfigAnnotation {
            description: "Changed in version 23.2. Now a list".to_string(),
            instance_path: "/k".to_string(),
        })
    );
}

#[test]
fn deprecated_takes_priority_over_changed() {
    let unit = AnnotationUnit {
        value: json(
            r#"{"changed": true, "deprecated": true, "changed_description": "c",
                "deprecated_description": "d"}"#,
        ),
        instance_location: String::new(),
    };
    assert_eq!(
        ConfigAnnotation::marked(&unit),
        Some(ConfigAnnotation { description: "Deprecated. d".to_string(), instance_path: String::new() })
    );
}

#[test]
fn bare_markers_give_bare_descriptions() {
    let deprecated = AnnotationUnit {
        value: json(r#"{"deprecated": true, "changed_version": 3, "deprecated_description": null}"#),
        instance_location: "/a".to_string(),
    };
    assert_eq!(
        ConfigAnnotation::marked(&deprecated),
        Some(ConfigAnnotation { description: "Deprecated".to_string(), instance_path: "/a".to_string() })
    );
    let changed = AnnotationUnit {
        value: json(r#"{"changed": true, "deprecated": false, "deprecated_description": "d"}"#),
        instance_location: "/b".to_string(),
    };
    assert_eq!(
        ConfigAnnotation::marked(&changed),
        Some(ConfigAnnotation { description: "Changed".to_string(), instance_path: "/b".to_string() })
    );
}

#[test]
fn units_without_a_marker_are_dropped() {
    for text in [
        r#"{"title": "t"}"#,
        r#"{"deprecated": false}"#,
        r#"{"deprecated": "true"}"#,
        r#"{"changed": 1}"#,
        r#"[true]"#,
        r#"true"#,
    ] {
        let unit = AnnotationUnit { value: json(text), instance_location: String::new() };
        assert_eq!(ConfigAnnotation::marked(&unit), None);
    }
    let output = BasicOutput::Valid(vec![
        AnnotationUnit { value: json(r#"{"title": "t"}"#), instance_location: "/a".to_string() },
        AnnotationUnit { value: json(r#"{"changed": true}"#), instance_location: "/b".to_string() },
        AnnotationUnit { value: json("1"), instance_location: "/c".to_string() },
        AnnotationUnit { value: json(r#"{"deprecated": true}"#), instance_location: "/d".to_string() },
    ]);
    let expected = Validation {
        is_valid: true,
        annotations: vec![
            ConfigAnnotation { description: "Changed".to_string(), instance_path: "/b".to_string() },
            ConfigAnnotation { description: "Deprecated".to_string(), instance_path: "/d".to_string() },
        ],
        errors: VecDeque::new(),
    };
    assert_eq!(Validation::from(output), expected);
}

#[test]
fn annotation_of_a_unit_holds_its_value_as_text() {
    let unit = AnnotationUnit {
        value: json(r#"{"title": "t", "deprecated": true}"#),
        instance_location: "/x/y".to_string(),
    };
    assert_eq!(
        ConfigAnnotation::from(&unit),
        ConfigAnnotation {
            description: r#"{"deprecated":true,"title":"t"}"#.to_string(),
            instance_path: "/x/y".to_string(),
        }
    );
}

#[test]
fn errors_keep_their_order() {
    let output = BasicOutput::Invalid(vec![
        ErrorUnit { description: "second".to_string(), instance_location: "/b".to_string() },
        ErrorUnit { description: "first".to_string(), instance_location: "/a".to_string() },
    ]);
    let expected = Validation {
        is_valid: false,
        annotations: vec![],
        errors: VecDeque::from(vec![
            ConfigError { description: "second".to_string(), instance_path: "/b".to_string() },
            ConfigError { description: "first".to_string(), instance_path: "/a".to_string() },
        ]),
    };
    assert_eq!(Validation::from(output), expected);
    let unit = ErrorUnit { description: "d".to_string(), instance_location: "/p".to_string() };
    assert_eq!(
        ConfigError::from(&unit),
        ConfigError { description: "d".to_string(), instance_path: "/p".to_string() }
    );
}

fn refusal(schema: &Json, draft: Draft) -> Option<String> {
    match Validator::with_draft(schema, draft) {
        Ok(_) => None,
        Err(Error::InvalidSchema(message)) => Some(message),
        Err(other) => panic!("unexpected error: {:?}", other),
    }
}

#[test]
fn refusal_is_the_compilers_message() {
    let schema = json(r#"{"type": 5}"#);
    for draft in [Draft::Draft4, Draft::Draft6, Draft::Draft7] {
        assert_eq!(
            refusal(&schema, draft),
            Some("5 is not valid under any of the schemas listed in the 'anyOf' keyword".to_string())
        );
    }
    match Validator::try_from(&schema) {
        Err(error) => assert_eq!(
            error,
            Error::InvalidSchema(
                "5 is not valid under any of the schemas listed in the 'anyOf' keyword".to_string()
            )
        ),
        Ok(_) => panic!("unexpected result"),
    }
}

#[test]
fn drafts_differ_in_what_they_take_for_a_schema() {
    let schema = json(r#"{"required": []}"#);
    assert_eq!(refusal(&schema, Draft::Draft4), Some("[] has less than 1 item".to_string()));
    assert_eq!(refusal(&schema, Draft::Draft6), None);
    assert_eq!(refusal(&schema, Draft::Draft7), None);
    assert!(Validator::try_from(&schema).is_err());
}

#[test]
fn same_schema_is_refused_in_the_same_words() {
    let text = r#"{"type": 5, "minimum": "x", "required": 7, "properties": {"a": {"type": "no"}}}"#;
    let schema = json(text);
    let first = refusal(&schema, Draft::Draft4);
    assert!(first.is_some());
    for _ in 0..8 {
        assert_eq!(refusal(&json(text), Draft::Draft4), first);
    }
    match Validator::from_vendored_schema(text) {
        Err(Error::InvalidSchema(message)) => assert_eq!(Some(message), first),
        other => panic!("unexpected result: {:?}", other),
    }
}

#[test]
fn schema_with_a_reference_left_is_refused() {
    for text in [r##"{"$ref":"#"}"##, r##"{"properties":{"a":{"$ref":"#/properties/a"}}}"##] {
        let schema = json(text);
        for draft in [Draft::Draft4, Draft::Draft6, Draft::Draft7] {
            assert_eq!(
                Validator::with_draft(&schema, draft).err(),
                Some(Error::SchemaRefUnresolved)
            );
        }
        assert_eq!(Validator::try_from(&schema).err(), Some(Error::SchemaRefUnresolved));
        assert_eq!(
            Validator::from_vendored_schema(text).err(),
            Some(Error::SchemaRefUnresolved)
        );
    }
}

#[test]
fn same_instance_has_the_same_result() {
    let validator = switch_validator();
    let again = switch_validator();
    for text in [r#"{"ssh_pwauth": 3, "old_key": 1, "other": null}"#, r#"{"old_key": "x"}"#, "[]"] {
        let first = validator.validate(&value(text));
        assert_eq!(validator.validate(&value(text)), first);
        assert_eq!(again.validate(&value(text)), first);
    }
}

#[test]
fn schema_that_is_no_schema_is_refused() {
    match Validator::try_from(&json(r#"{"type": 5}"#)) {
        Err(Error::InvalidSchema(message)) => assert!(!message.is_empty()),
        other => panic!("unexpected result: {:?}", other),
    }
}

#[test]
fn snapshot_that_is_no_json_is_refused() {
    match Validator::from_vendored_schema("{") {
        Err(Error::InvalidJson(message)) => {
            assert_eq!(message, "EOF while parsing an object at line 1 column 1")
        }
        other => panic!("unexpected result: {:?}", other),
    }
}

#[test]
fn payload_is_handed_back() {
    let config = CloudConfig::new("#cloud-config\na: 1".to_string());
    assert_eq!(config.payload(), "#cloud-config\na: 1");
}
