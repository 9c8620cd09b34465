use std::collections::VecDeque;
use std::sync::{Arc, RwLock};

use cloud_config_validator::cli::exit_code;
use cloud_config_validator::error::{ApiError, Error};
use cloud_config_validator::json::Json;
use cloud_config_validator::resolver::{Resolver, Stop};
use cloud_config_validator::schema::{ConfigKind, Schema};
use cloud_config_validator::service::{nc_validate, validate, AppState};
use cloud_config_validator::telemetry::init_subscriber;
use cloud_config_validator::validator::{
    CloudConfig, ConfigAnnotation, ConfigError, Validation, Validator,
};

const CLOUD_SCHEMA: &str = r#"{
    "type": "object",
    "properties": {"ssh_pwauth": {"type": "boolean"}},
    "additionalProperties": false
}"#;

const NETWORK_SCHEMA: &str = r##"{
    "$defs": {"version": {"type": "integer", "enum": [1]}},
    "type": "object",
    "properties": {
        "network": {
            "type": "object",
            "properties": {"version": {"$ref": "#/$defs/version"}},
            "required": ["version"]
        }
    }
}"##;

const STRICT_SCHEMA: &str = r#"{
    "type": "object",
    "properties": {"ssh_pwauth": {"type": "string"}}
}"#;

fn built(kind: ConfigKind, text: &str) -> Validator {
    let mut resolver = Resolver::new();
    Validator::new(kind, text, &mut resolver).expect("a schema that can be built")
}

fn state() -> AppState {
    AppState::new(
        built(ConfigKind::CloudConfig, CLOUD_SCHEMA),
        built(ConfigKind::NetworkConfig, NETWORK_SCHEMA),
    )
}

fn config(text: &str) -> CloudConfig {
    CloudConfig::new(text.to_string())
}

fn header_error() -> ConfigError {
    ConfigError {
        description: "Cloud-config needs to begin with \"#cloud-config\"".to_string(),
        instance_path: String::new(),
    }
}

#[test]
fn valid_document_is_answered_with_its_result() {
    let response = validate(&state(), &config("#cloud-config\nssh_pwauth: true")).unwrap();
    assert_eq!(
        response,
        Validation { is_valid: true, annotations: vec![], errors: VecDeque::new() }
    );
    assert_eq!(response.to_json_text(), r#"{"annotations":[],"errors":[],"is_valid":true}"#);
}

#[test]
fn invalid_document_is_answered_with_its_result() {
    let response = validate(&state(), &config("ssh_pwauth: true")).unwrap();
    assert_eq!(
        response.to_json_text(),
        r##"{"annotations":[],"errors":[{"description":"Cloud-config needs to begin with \"#cloud-config\"","instance_path":""}],"is_valid":false}"##
    );
}

#[test]
fn unfinished_yaml_is_answered_with_a_client_error() {
    let refusal = validate(&state(), &config("\"a")).unwrap_err();
    assert_eq!(refusal.status, 400);
    assert_eq!(
        refusal.to_json_text(),
        "{\"errors\":[\"found unexpected end of stream at line 1 column 3, while scanning a quoted scalar\"]}"
    );
}

#[test]
fn each_kind_is_answered_by_its_own_validator() {
    let state = state();
    let network = config("#cloud-config\nnetwork:\n  version: 1");
    assert!(nc_validate(&state, &network).unwrap().is_valid);
    assert!(!validate(&state, &network).unwrap().is_valid);
    let without_version = config("#cloud-config\nnetwork: {}");
    assert!(!nc_validate(&state, &without_version).unwrap().is_valid);
}

#[test]
fn failed_refresh_keeps_the_validator_in_service() {
    let mut state = state();
    let payload = config("#cloud-config\nssh_pwauth: true");
    assert!(validate(&state, &payload).unwrap().is_valid);
    let failure = state.refresh(
        ConfigKind::CloudConfig,
        Err(Error::RequestError("connection refused".to_string())),
    );
    assert_eq!(failure, Some(Error::RequestError("connection refused".to_string())));
    assert!(validate(&state, &payload).unwrap().is_valid);
}

#[test]
fn refresh_puts_the_new_validator_in_service() {
    let mut state = state();
    let payload = config("#cloud-config\nssh_pwauth: true");
    assert!(validate(&state, &payload).unwrap().is_valid);
    let failure = state.refresh(
        ConfigKind::CloudConfig,
        Ok(built(ConfigKind::CloudConfig, STRICT_SCHEMA)),
    );
    assert_eq!(failure, None);
    let after = validate(&state, &payload).unwrap();
    assert_eq!(
        after.errors,
        VecDeque::from(vec![ConfigError {
            description: "true is not of type \"string\"".to_string(),
            instance_path: "/ssh_pwauth".to_string(),
        }])
    );
    assert!(nc_validate(&state, &config("#cloud-config\nnetwork:\n  version: 1")).unwrap().is_valid);
}

#[test]
fn concurrent_requests_see_the_old_or_the_new_validator() {
    let payload = config("#cloud-config\nssh_pwauth: true");
    let old = validate(&state(), &payload).unwrap();
    let mut renewed = state();
    renewed.refresh(ConfigKind::CloudConfig, Ok(built(ConfigKind::CloudConfig, STRICT_SCHEMA)));
    let new = validate(&renewed, &payload).unwrap();
    assert_ne!(old, new);

    let shared = Arc::new(RwLock::new(state()));
    let answers = Arc::new(RwLock::new(Vec::new()));
    rayon::scope(|scope| {
        for round in 0..16 {
            let reader = shared.clone();
            let answers = answers.clone();
            let payload = config("#cloud-config\nssh_pwauth: true");
            scope.spawn(move |_| {
                let answer = validate(&reader.read().unwrap(), &payload).unwrap();
                answers.write().unwrap().push(answer);
            });
            if round == 8 {
                let writer = shared.clone();
                scope.spawn(move |_| {
                    let rebuilt = built(ConfigKind::CloudConfig, STRICT_SCHEMA);
                    writer.write().unwrap().refresh(ConfigKind::CloudConfig, Ok(rebuilt));
                });
            }
        }
    });
    let answers = answers.read().unwrap();
    assert_eq!(answers.len(), 16);
    for answer in answers.iter() {
        assert!(*answer == old || *answer == new);
    }
    assert_eq!(validate(&shared.read().unwrap(), &payload).unwrap(), new);
}

#[test]
fn build_stops_where_the_schema_cannot_be_built() {
    let mut resolver = Resolver::new();
    match Validator::new(ConfigKind::CloudConfig, "{", &mut resolver) {
        Err(stop) => assert_eq!(
            stop,
            Stop::Failed(Error::RequestError(
                "EOF while parsing an object at line 1 column 1".to_string()
            ))
        ),
        Ok(_) => panic!("unexpected result"),
    }
    match Validator::new(ConfigKind::CloudConfig, r##"{"not": {"$ref": 1, "x": {"$ref": "#"}}}"##, &mut resolver) {
        Err(stop) => assert!(matches!(stop, Stop::Failed(_))),
        Ok(_) => panic!("unexpected result"),
    }
    assert!(matches!(
        Validator::new(ConfigKind::CloudConfig, r#"{"type": 5}"#, &mut resolver),
        Err(Stop::Failed(Error::InvalidSchema(_)))
    ));
    assert!(matches!(
        Validator::new(ConfigKind::CloudConfig, r##"{"a": {"$ref": "#/$defs/b"}}"##, &mut resolver),
        Err(Stop::Failed(Error::LocalSchemaRefNotFound { .. }))
    ));
    match Validator::new(
        ConfigKind::CloudConfig,
        r#"{"a": {"$ref": "https://example.com/part.json"}}"#,
        &mut resolver,
    ) {
        Err(Stop::NeedsDocument(url)) => assert_eq!(url, "https://example.com/part.json"),
        other => panic!("unexpected result: {:?}", other),
    }
}

#[test]
fn text_that_is_no_json_is_a_failed_request() {
    let mut resolver = Resolver::new();
    match Schema::get(ConfigKind::CloudConfig, "<html>", &mut resolver) {
        Err(stop) => assert_eq!(
            stop,
            Stop::Failed(Error::RequestError("expected value at line 1 column 1".to_string()))
        ),
        Ok(_) => panic!("unexpected result"),
    }
    assert_eq!(
        resolver.add_fetched("https://example.com/s.json".to_string(), "<html>"),
        Err(Error::RequestError("expected value at line 1 column 1".to_string()))
    );
    assert!(resolver.documents.is_empty());
    assert_eq!(resolver.add_fetched("https://example.com/s.json".to_string(), "[1]"), Ok(()));
    assert_eq!(
        resolver.documents,
        vec![("https://example.com/s.json".to_string(), Json::parse("[1]").unwrap())]
    );
}

#[test]
fn stops_end_a_build_with_their_errors() {
    assert_eq!(Stop::NeedsDocument("https://example.com".to_string()).failure(), None);
    assert_eq!(
        Stop::Failed(Error::InvalidSchema("s".to_string())).failure(),
        Some(Error::InvalidSchema("s".to_string()))
    );
    assert_eq!(Stop::TooDeep.failure(), Some(Error::SchemaRefUnresolved));
}

#[test]
fn schema_is_read_and_resolved() {
    let mut resolver = Resolver::new();
    let schema = Schema::get(ConfigKind::NetworkConfig, NETWORK_SCHEMA, &mut resolver).unwrap();
    let expected = Json::parse(
        r#"{
            "type": "object",
            "properties": {
                "network": {
                    "type": "object",
                    "properties": {"version": {"version": {"type": "integer", "enum": [1]}}},
                    "required": ["version"]
                }
            }
        }"#,
    )
    .unwrap();
    assert_eq!(schema.schema(), &expected);
    let vendored = Schema::from_vendored(NETWORK_SCHEMA).unwrap();
    assert_eq!(vendored.schema(), &Json::parse(NETWORK_SCHEMA).unwrap());
}

#[test]
fn kinds_have_names_and_locations() {
    assert_eq!(ConfigKind::from_str("cloudconfig"), Ok(ConfigKind::CloudConfig));
    assert_eq!(ConfigKind::from_str("NetworkConfig"), Ok(ConfigKind::NetworkConfig));
    assert_eq!(ConfigKind::from_str("CLOUDCONFIG"), Ok(ConfigKind::CloudConfig));
    assert_eq!(
        ConfigKind::from_str("cloud-config"),
        Err("Not a valid str variant: cloud-config".to_string())
    );
    assert_eq!(ConfigKind::from_str(""), Err("Not a valid str variant: ".to_string()));
    assert_eq!(ConfigKind::CloudConfig.to_string(), "cloudconfig");
    assert_eq!(ConfigKind::NetworkConfig.to_string(), "networkconfig");
    assert_eq!(
        ConfigKind::CloudConfig.url(),
        "https://raw.githubusercontent.com/canonical/cloud-init/main/cloudinit/config/schemas/versions.schema.cloud-config.json"
    );
    assert_eq!(
        ConfigKind::NetworkConfig.url(),
        "https://raw.githubusercontent.com/canonical/cloud-init/main/cloudinit/config/schemas/schema-network-config-v1.json"
    );
}

#[test]
fn errors_have_messages_and_statuses() {
    let cases = [
        (Error::InvalidYaml("y".to_string()), "invalid yaml: y", 400, "y"),
        (Error::InvalidJson("j".to_string()), "invalid json: j", 400, "j"),
        (Error::InvalidSchema("s".to_string()), "invalid JsonSchema: s", 500, "s"),
        (Error::RequestError("r".to_string()), "request error: r", 500, "request error: r"),
        (
            Error::LocalSchemaRefNotFound { reference: "/a".to_string() },
            "local JsonSchema ref not found: /a",
            500,
            "local JsonSchema ref not found: /a",
        ),
        (
            Error::LocalSchemaRefInvalidName { reference: "#/$defsa".to_string() },
            "local JsonSchema with invalid name: #/$defsa",
            500,
            "local JsonSchema with invalid name: #/$defsa",
        ),
        (
            Error::SchemaRefUnresolved,
            "JsonSchema with a ref left unresolved",
            500,
            "JsonSchema with a ref left unresolved",
        ),
    ];
    for (error, message, status, report) in cases {
        assert_eq!(error.message(), message);
        assert_eq!(ApiError::from(error), ApiError { status, error: report.to_string() });
    }
}

#[test]
fn exit_code_is_zero_for_a_valid_document_only() {
    let valid = Validation { is_valid: true, annotations: vec![], errors: VecDeque::new() };
    let invalid = Validation { is_valid: false, annotations: vec![], errors: VecDeque::new() };
    assert_eq!(exit_code(&Ok(valid)), 0);
    assert_eq!(exit_code(&Ok(invalid)), 1);
    assert_eq!(exit_code(&Err(Error::InvalidYaml("y".to_string()))), 1);
}

#[test]
fn result_is_read_back_from_its_json() {
    let validation = Validation {
        is_valid: false,
        annotations: vec![ConfigAnnotation {
            description: "Deprecated in version 1. \"quoted\"".to_string(),
            instance_path: "/a/0".to_string(),
        }],
        errors: VecDeque::from(vec![header_error(), ConfigError {
            description: "1.5 is not of type \"integer\"".to_string(),
            instance_path: "/x/y".to_string(),
        }]),
    };
    assert_eq!(Validation::from_json(&validation.to_json()), Some(validation.clone()));
    let text = validation.to_json_text();
    assert_eq!(Validation::from_json(&Json::parse(&text).unwrap()), Some(validation));
}

#[test]
fn other_json_is_no_result() {
    for text in [
        "[]",
        r#"{"is_valid": true, "errors": []}"#,
        r#"{"is_valid": 1, "errors": [], "annotations": []}"#,
        r#"{"is_valid": true, "errors": [{"description": "d"}], "annotations": []}"#,
        r#"{"is_valid": true, "errors": [], "annotations": [{"description": "d", "instance_path": 1}]}"#,
    ] {
        assert_eq!(Validation::from_json(&Json::parse(text).unwrap()), None);
    }
}

#[test]
fn json_is_written_as_it_was_read() {
    let text = r#"{"a":[1,2.5,-3,"x",null,true],"b":{"c":"é"}}"#;
    assert_eq!(Json::parse(text).unwrap().to_text(), "{\"a\":[1,2.5,-3,\"x\",null,true],\"b\":{\"c\":\"é\"}}");
    assert_eq!(Json::parse("{\"b\":1,\"a\":2}").unwrap().to_text(), r#"{"a":2,"b":1}"#);
    assert!(matches!(Json::parse("{,}"), Err(Error::InvalidJson(_))));
}

#[test]
fn subscriber_is_installed_once() {
    let first = init_subscriber(tracing::Dispatch::new(tracing_subscriber::registry()));
    let second = init_subscriber(tracing::Dispatch::new(tracing_subscriber::registry()));
    assert!(first);
    assert!(!second);
}
