//! The calls into `serde_json`, `serde_yaml`, `jsonschema`, `reqwest` and
//! `tracing`. Verus takes the contracts in this file on trust: nothing here
//! is proved.

use vstd::prelude::*;
use crate::json::{Json, JsonValue};
use crate::resolver::is_well_referenced;
use crate::validator::{
    compiled_from_resolved, AnnotationUnit, BasicOutput, BasicOutputView, Draft, ErrorUnit,
};

verus! {

/// `serde_json::Number`: a number of a JSON document, carried as it is.
#[verifier::external_type_specification]
#[verifier::external_body]
pub struct ExNumber(serde_json::Number);

/// `serde_json::Value`: an instance to validate, carried as it is from the
/// parser to the evaluation.
#[verifier::external_type_specification]
#[verifier::external_body]
pub struct ExValue(serde_json::Value);

/// `jsonschema::JSONSchema`: a compiled schema.
#[verifier::external_type_specification]
#[verifier::external_body]
pub struct ExJsonSchema(jsonschema::JSONSchema);

/// `tracing::Dispatch`: a subscriber that is ready to be installed.
#[verifier::external_type_specification]
#[verifier::external_body]
pub struct ExDispatch(tracing::Dispatch);

/// `Clone::clone` of `serde_json::Number`: the copy is the same number.
pub assume_specification[ <serde_json::Number as Clone>::clone ](n: &serde_json::Number) -> (r:
    serde_json::Number)
    ensures
        r == *n,
;

/// What `serde_json::from_str` makes of a text: the document that the text
/// holds, or the message of the error that refuses a text which is not JSON.
pub uninterp spec fn json_document(text: Seq<char>) -> Result<JsonValue, Seq<char>>;

/// What `serde_yaml::from_str` makes of a text: the document that the text
/// holds, read into a `serde_json::Value`, or the message of the error that
/// refuses a text which is not YAML.
pub uninterp spec fn yaml_document(text: Seq<char>) -> Result<serde_json::Value, Seq<char>>;

/// Whether `Url::parse` accepts a text as an absolute URL.
pub uninterp spec fn is_absolute_url(text: Seq<char>) -> bool;

/// What `serde_json::Value::pointer` finds in a document under a JSON
/// pointer.
pub uninterp spec fn pointer_target(document: JsonValue, pointer: Seq<char>) -> Option<JsonValue>;

/// The text that `serde_json` writes for a document.
pub uninterp spec fn json_text(document: JsonValue) -> Seq<char>;

/// What `jsonschema` makes of a document that it is to compile as a schema
/// of a draft: the compiled schema, or the message of the error that
/// refuses the document.
pub uninterp spec fn schema_compilation(schema: JsonValue, draft: Draft) -> Result<
    jsonschema::JSONSchema,
    Seq<char>,
>;

/// The basic output of evaluating an instance against a compiled schema, as
/// `jsonschema` reports it: the annotations of a valid instance or the
/// errors of an invalid one, in their order.
pub uninterp spec fn basic_output(
    schema: jsonschema::JSONSchema,
    instance: serde_json::Value,
) -> BasicOutputView;

/// Copies a `serde_json::Value` into a `Json`, variant by variant. The
/// members of an object come in the order in which `serde_json::Map::iter`
/// hands them out. The map is a B-tree map: it holds each key once and
/// walks its keys in the order of `String`, which is the order of their
/// characters, so the copy is well formed.
#[verifier::external_body]
pub(crate) fn from_value(value: &serde_json::Value) -> (json: Json)
    ensures
        json@.wf(),
{
    match value {
        serde_json::Value::Null => Json::Null,
        serde_json::Value::Bool(b) => Json::Bool(*b),
        serde_json::Value::Number(n) => Json::Number(n.clone()),
        serde_json::Value::String(s) => Json::String(s.clone()),
        serde_json::Value::Array(items) => Json::Array(items.iter().map(from_value).collect()),
        serde_json::Value::Object(map) => Json::Object(
            map.iter().map(|(key, item)| (key.clone(), from_value(item))).collect(),
        ),
    }
}

/// Copies a `Json` into a `serde_json::Value`, variant by variant. The
/// members of an object are collected into a `serde_json::Map`.
#[verifier::external_body]
pub(crate) fn to_value(json: &Json) -> (value: serde_json::Value) {
    match json {
        Json::Null => serde_json::Value::Null,
        Json::Bool(b) => serde_json::Value::Bool(*b),
        Json::Number(n) => serde_json::Value::Number(n.clone()),
        Json::String(s) => serde_json::Value::String(s.clone()),
        Json::Array(items) => serde_json::Value::Array(items.iter().map(to_value).collect()),
        Json::Object(members) => serde_json::Value::Object(
            members.iter().map(|(key, item)| (key.clone(), to_value(item))).collect(),
        ),
    }
}

/// `serde_json::from_str`, read into a `Json`: the document that the text
/// holds, or the message of the parser's error.
#[verifier::external_body]
pub(crate) fn parse_json(text: &str) -> (parsed: Result<Json, String>)
    ensures
        match parsed {
            Ok(json) => json@.wf() && json_document(text@) == Ok::<JsonValue, Seq<char>>(json@),
            Err(message) => json_document(text@) == Err::<JsonValue, Seq<char>>(message@),
        },
{
    match serde_json::from_str::<serde_json::Value>(text) {
        Ok(value) => Ok(from_value(&value)),
        Err(refusal) => Err(refusal.to_string()),
    }
}

/// `serde_yaml::from_str` with a `serde_json::Value` as its target: the
/// document that the text holds, or the message of the parser's error.
#[verifier::external_body]
pub(crate) fn parse_yaml(text: &str) -> (parsed: Result<serde_json::Value, String>)
    ensures
        match parsed {
            Ok(document) => yaml_document(text@) == Ok::<serde_json::Value, Seq<char>>(document),
            Err(message) => yaml_document(text@) == Err::<serde_json::Value, Seq<char>>(
                message@,
            ),
        },
{
    serde_yaml::from_str::<serde_json::Value>(text).map_err(|refusal| refusal.to_string())
}

/// `Url::parse`: whether the text is an absolute URL.
#[verifier::external_body]
pub(crate) fn parses_as_url(text: &str) -> (absolute: bool)
    ensures
        absolute == is_absolute_url(text@),
{
    reqwest::Url::parse(text).is_ok()
}

/// `serde_json::Value::pointer` on a copy of `document`: the value under
/// the JSON pointer, if there is one. What it finds is a part of the
/// document: every object in it is an object of the document, so it is
/// well referenced where the document is.
#[verifier::external_body]
pub(crate) fn pointer_lookup(document: &Json, pointer: &str) -> (found: Option<Json>)
    ensures
        match found {
            Some(json) => json@.wf() && pointer_target(document@, pointer@) == Some(json@),
            None => pointer_target(document@, pointer@) is None,
        },
        is_well_referenced(document@) ==> (found matches Some(json) ==> is_well_referenced(
            json@,
        )),
{
    to_value(document).pointer(pointer).map(from_value)
}

/// `serde_json`'s `Display` for a value: the document as compact JSON text.
#[verifier::external_body]
pub(crate) fn render_json(document: &Json) -> (text: String)
    ensures
        text@ == json_text(document@),
{
    to_value(document).to_string()
}

/// `JSONSchema::options().with_draft(..).compile(..)` on a copy of
/// `schema`: the schema compiled as one of the given draft, or the text of
/// the error that refuses it. Compiling reads the schema and the draft and
/// nothing else: it checks the schema against the draft's own schema and
/// builds the validators, and follows no reference before an instance is
/// evaluated.
#[verifier::external_body]
pub(crate) fn compile(schema: &Json, draft: Draft) -> (compiled: Result<
    jsonschema::JSONSchema,
    String,
>)
    ensures
        match compiled {
            Ok(compiled_schema) => schema_compilation(schema@, draft) == Ok::<
                jsonschema::JSONSchema,
                Seq<char>,
            >(compiled_schema),
            Err(message) => schema_compilation(schema@, draft) == Err::<
                jsonschema::JSONSchema,
                Seq<char>,
            >(message@),
        },
{
    let draft = match draft {
        Draft::Draft4 => jsonschema::Draft::Draft4,
        Draft::Draft6 => jsonschema::Draft::Draft6,
        Draft::Draft7 => jsonschema::Draft::Draft7,
    };
    jsonschema::JSONSchema::options()
        .with_draft(draft)
        .compile(&to_value(schema))
        .map_err(|refusal| refusal.to_string())
}

/// `JSONSchema::apply(..).basic()`, copied unit by unit: of each annotation
/// its value and instance location, of each error its description and
/// instance location, in the order of the output. The output depends on the
/// compiled schema and the instance alone.
///
/// The evaluation follows a reference every time it meets one, so it does
/// not end on a schema whose reference leads back to itself. A schema that
/// was compiled from a document without references holds none: that is
/// what is asked of `schema`.
#[verifier::external_body]
pub(crate) fn apply_basic(
    schema: &jsonschema::JSONSchema,
    instance: &serde_json::Value,
) -> (output: BasicOutput)
    requires
        compiled_from_resolved(*schema),
    ensures
        output@ == basic_output(*schema, *instance),
{
    match schema.apply(instance).basic() {
        jsonschema::output::BasicOutput::Valid(units) => BasicOutput::Valid(
            units.iter().map(|unit| AnnotationUnit {
                value: from_value(&unit.value()),
                instance_location: unit.instance_location().to_string(),
            }).collect(),
        ),
        jsonschema::output::BasicOutput::Invalid(units) => BasicOutput::Invalid(
            units.iter().map(|unit| ErrorUnit {
                description: unit.error_description().to_string(),
                instance_location: unit.instance_location().to_string(),
            }).collect(),
        ),
    }
}

/// `tracing::dispatcher::set_global_default`: whether the subscriber became
/// the program's global default. It does so once per process.
#[verifier::external_body]
pub(crate) fn set_global_default(subscriber: tracing::Dispatch) -> (installed: bool) {
    tracing::dispatcher::set_global_default(subscriber).is_ok()
}

} // verus!
