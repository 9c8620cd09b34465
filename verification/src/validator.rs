//! Compiling a schema, validating documents with it, and shaping the
//! outcome of an evaluation into a result.

use vstd::prelude::*;
use vstd::string::*;
use std::collections::VecDeque;
use crate::error::{Error, ErrorView};
use crate::json::{member, Json, JsonValue};
use crate::resolver::{
    is_plain, is_reference_free, lemma_plain_is_reference_free, reference_free, resolve_value,
    Resolver, Stop, StopView,
};
use crate::schema::{ConfigKind, Schema};
use crate::text::starts_with;
use crate::trusted::{
    apply_basic, basic_output, compile, json_document, json_text, parse_yaml,
    schema_compilation, yaml_document,
};

verus! {

/// One annotation of a successful evaluation: the annotated value and the
/// place in the instance that it belongs to.
#[derive(Debug, PartialEq)]
pub struct AnnotationUnit {
    pub value: Json,
    pub instance_location: String,
}

pub struct AnnotationUnitView {
    pub value: JsonValue,
    pub instance_location: Seq<char>,
}

impl View for AnnotationUnit {
    type V = AnnotationUnitView;

    open spec fn view(&self) -> AnnotationUnitView {
        AnnotationUnitView { value: self.value@, instance_location: self.instance_location@ }
    }
}

/// One error of a failed evaluation.
#[derive(Debug, PartialEq)]
pub struct ErrorUnit {
    pub description: String,
    pub instance_location: String,
}

pub struct ErrorUnitView {
    pub description: Seq<char>,
    pub instance_location: Seq<char>,
}

impl View for ErrorUnit {
    type V = ErrorUnitView;

    open spec fn view(&self) -> ErrorUnitView {
        ErrorUnitView { description: self.description@, instance_location: self.instance_location@ }
    }
}

/// The outcome of evaluating an instance against a schema: the annotations
/// of a valid instance, or the errors of an invalid one, in the order in
/// which the evaluation reported them.
#[derive(Debug, PartialEq)]
pub enum BasicOutput {
    Valid(Vec<AnnotationUnit>),
    Invalid(Vec<ErrorUnit>),
}

pub enum BasicOutputView {
    Valid(Seq<AnnotationUnitView>),
    Invalid(Seq<ErrorUnitView>),
}

impl View for BasicOutput {
    type V = BasicOutputView;

    open spec fn view(&self) -> BasicOutputView {
        match self {
            BasicOutput::Valid(units) => BasicOutputView::Valid(
                units@.map_values(|unit: AnnotationUnit| unit@),
            ),
            BasicOutput::Invalid(units) => BasicOutputView::Invalid(
                units@.map_values(|unit: ErrorUnit| unit@),
            ),
        }
    }
}

/// A remark on a valid document: a key that is deprecated or has changed.
#[derive(Debug, PartialEq)]
pub struct ConfigAnnotation {
    pub description: String,
    pub instance_path: String,
}

pub struct ConfigAnnotationView {
    pub description: Seq<char>,
    pub instance_path: Seq<char>,
}

impl View for ConfigAnnotation {
    type V = ConfigAnnotationView;

    open spec fn view(&self) -> ConfigAnnotationView {
        ConfigAnnotationView { description: self.description@, instance_path: self.instance_path@ }
    }
}

/// A reason for which a document is not valid.
#[derive(Debug, PartialEq)]
pub struct ConfigError {
    pub description: String,
    pub instance_path: String,
}

pub struct ConfigErrorView {
    pub description: Seq<char>,
    pub instance_path: Seq<char>,
}

impl View for ConfigError {
    type V = ConfigErrorView;

    open spec fn view(&self) -> ConfigErrorView {
        ConfigErrorView { description: self.description@, instance_path: self.instance_path@ }
    }
}

/// The result of validating one document.
#[derive(Debug, PartialEq)]
pub struct Validation {
    pub is_valid: bool,
    pub annotations: Vec<ConfigAnnotation>,
    pub errors: VecDeque<ConfigError>,
}

pub struct ValidationView {
    pub is_valid: bool,
    pub annotations: Seq<ConfigAnnotationView>,
    pub errors: Seq<ConfigErrorView>,
}

impl View for Validation {
    type V = ValidationView;

    open spec fn view(&self) -> ValidationView {
        ValidationView {
            is_valid: self.is_valid,
            annotations: self.annotations@.map_values(|a: ConfigAnnotation| a@),
            errors: self.errors@.map_values(|e: ConfigError| e@),
        }
    }
}

impl Clone for ConfigAnnotation {
    fn clone(&self) -> (copy: ConfigAnnotation)
        ensures
            copy@ == self@,
    {
        ConfigAnnotation {
            description: self.description.clone(),
            instance_path: self.instance_path.clone(),
        }
    }
}

impl Clone for ConfigError {
    fn clone(&self) -> (copy: ConfigError)
        ensures
            copy@ == self@,
    {
        ConfigError {
            description: self.description.clone(),
            instance_path: self.instance_path.clone(),
        }
    }
}

impl Clone for Validation {
    fn clone(&self) -> (copy: Validation)
        ensures
            copy@ == self@,
    {
        let mut annotations: Vec<ConfigAnnotation> = Vec::new();
        let mut i: usize = 0;
        while i < self.annotations.len()
            invariant
                i <= self.annotations.len(),
                annotations@.len() == i,
                forall|k: int| 0 <= k < i ==> annotations@[k]@ == self.annotations@[k]@,
            decreases self.annotations.len() - i,
        {
            annotations.push(self.annotations[i].clone());
            i += 1;
        }
        let mut errors: VecDeque<ConfigError> = VecDeque::new();
        let mut j: usize = 0;
        while j < self.errors.len()
            invariant
                j <= self.errors.len(),
                errors@.len() == j,
                forall|k: int| 0 <= k < j ==> errors@[k]@ == self.errors@[k]@,
            decreases self.errors.len() - j,
        {
            errors.push_back(self.errors[j].clone());
            j += 1;
        }
        let copy = Validation { is_valid: self.is_valid, annotations, errors };
        assert(copy@.annotations =~= self@.annotations);
        assert(copy@.errors =~= self@.errors);
        copy
    }
}

/// The text of a remark: `base`, then the version of the change where the
/// annotation names one, then the free text under `description_key` where
/// it has one.
pub open spec fn description_of(
    base: Seq<char>,
    members: Seq<(Seq<char>, JsonValue)>,
    description_key: Seq<char>,
) -> Seq<char> {
    let versioned = match member(members, "changed_version"@) {
        Some(JsonValue::String(version)) => base + " in version "@ + version,
        _ => base,
    };
    match member(members, description_key) {
        Some(JsonValue::String(text)) => versioned + ". "@ + text,
        _ => versioned,
    }
}

/// The remark that an annotation unit gives rise to: one for an object
/// marked as deprecated, else one for an object marked as changed, else
/// none.
pub open spec fn annotation_of(unit: AnnotationUnitView) -> Option<ConfigAnnotationView> {
    match unit.value {
        JsonValue::Object(members) => {
            if member(members, "deprecated"@) == Some(JsonValue::Bool(true)) {
                Some(
                    ConfigAnnotationView {
                        description: description_of(
                            "Deprecated"@,
                            members,
                            "deprecated_description"@,
                        ),
                        instance_path: unit.instance_location,
                    },
                )
            } else if member(members, "changed"@) == Some(JsonValue::Bool(true)) {
                Some(
                    ConfigAnnotationView {
                        description: description_of("Changed"@, members, "changed_description"@),
                        instance_path: unit.instance_location,
                    },
                )
            } else {
                None
            }
        },
        _ => None,
    }
}

/// The remarks of a sequence of annotation units, in the order of the units.
pub open spec fn annotations_of(units: Seq<AnnotationUnitView>) -> Seq<ConfigAnnotationView>
    decreases units.len(),
{
    if units.len() == 0 {
        Seq::empty()
    } else {
        let before = annotations_of(units.drop_last());
        match annotation_of(units.last()) {
            Some(annotation) => before.push(annotation),
            None => before,
        }
    }
}

/// The error that an error unit gives rise to.
pub open spec fn error_of(unit: ErrorUnitView) -> ConfigErrorView {
    ConfigErrorView { description: unit.description, instance_path: unit.instance_location }
}

/// The result that an evaluation gives rise to.
pub open spec fn validation_of(output: BasicOutputView) -> ValidationView {
    match output {
        BasicOutputView::Valid(units) => ValidationView {
            is_valid: true,
            annotations: annotations_of(units),
            errors: Seq::empty(),
        },
        BasicOutputView::Invalid(units) => ValidationView {
            is_valid: false,
            annotations: Seq::empty(),
            errors: units.map_values(|unit: ErrorUnitView| error_of(unit)),
        },
    }
}

/// Whether `found` is the JSON value `true`.
fn is_true(found: Option<&Json>) -> (yes: bool)
    ensures
        yes == (found matches Some(value) && value@ == JsonValue::Bool(true)),
{
    match found {
        Some(Json::Bool(flag)) => *flag,
        _ => false,
    }
}

/// Appends to `description` what `description_of` adds to its base.
fn describe(description: &mut String, value: &Json, description_key: &str)
    requires
        value@ is Object,
    ensures
        final(description)@ == description_of(
            old(description)@,
            value@->Object_0,
            description_key@,
        ),
{
    match value.get("changed_version") {
        Some(Json::String(version)) => {
            description.append(" in version ");
            description.append(version.as_str());
        },
        _ => {},
    }
    match value.get(description_key) {
        Some(Json::String(text)) => {
            description.append(". ");
            description.append(text.as_str());
        },
        _ => {},
    }
}

impl ConfigAnnotation {
    /// The annotation of a unit as it stands: its value as JSON text, at
    /// the unit's place in the instance.
    pub fn from(unit: &AnnotationUnit) -> (annotation: ConfigAnnotation)
        ensures
            annotation@ == (ConfigAnnotationView {
                description: json_text(unit@.value),
                instance_path: unit@.instance_location,
            }),
    {
        ConfigAnnotation {
            description: unit.value.to_text(),
            instance_path: unit.instance_location.clone(),
        }
    }

    /// The remark that an annotation unit gives rise to, if any.
    pub fn marked(unit: &AnnotationUnit) -> (annotation: Option<ConfigAnnotation>)
        ensures
            match annotation {
                Some(a) => annotation_of(unit@) == Some(a@),
                None => annotation_of(unit@) is None,
            },
    {
        match &unit.value {
            Json::Object(_) => {
                if is_true(unit.value.get("deprecated")) {
                    let mut description = String::from_str("Deprecated");
                    describe(&mut description, &unit.value, "deprecated_description");
                    Some(
                        ConfigAnnotation {
                            description,
                            instance_path: unit.instance_location.clone(),
                        },
                    )
                } else if is_true(unit.value.get("changed")) {
                    let mut description = String::from_str("Changed");
                    describe(&mut description, &unit.value, "changed_description");
                    Some(
                        ConfigAnnotation {
                            description,
                            instance_path: unit.instance_location.clone(),
                        },
                    )
                } else {
                    None
                }
            },
            _ => None,
        }
    }
}

impl ConfigError {
    /// The error that an error unit gives rise to.
    pub fn from(unit: &ErrorUnit) -> (error: ConfigError)
        ensures
            error@ == error_of(unit@),
    {
        ConfigError {
            description: unit.description.clone(),
            instance_path: unit.instance_location.clone(),
        }
    }
}

impl Validation {
    /// Shapes the outcome of an evaluation. A valid instance keeps the
    /// remarks on deprecated and changed keys and has no errors; an invalid
    /// one has its errors, in their order, and no annotations.
    pub fn from(output: BasicOutput) -> (validation: Validation)
        ensures
            validation@ == validation_of(output@),
    {
        match output {
            BasicOutput::Valid(units) => {
                let mut annotations: Vec<ConfigAnnotation> = Vec::new();
                let ghost viewed = units@.map_values(|unit: AnnotationUnit| unit@);
                let mut i: usize = 0;
                while i < units.len()
                    invariant
                        i <= units.len(),
                        viewed == units@.map_values(|unit: AnnotationUnit| unit@),
                        annotations@.map_values(|a: ConfigAnnotation| a@) == annotations_of(
                            viewed.take(i as int),
                        ),
                    decreases units.len() - i,
                {
                    assert(viewed.take(i + 1).drop_last() =~= viewed.take(i as int));
                    match ConfigAnnotation::marked(&units[i]) {
                        Some(annotation) => {
                            annotations.push(annotation);
                        },
                        None => {},
                    }
                    i += 1;
                }
                assert(viewed.take(i as int) =~= viewed);
                let validation = Validation {
                    is_valid: true,
                    annotations,
                    errors: VecDeque::new(),
                };
                assert(validation@.errors =~= Seq::empty());
                validation
            },
            BasicOutput::Invalid(units) => {
                let mut errors: VecDeque<ConfigError> = VecDeque::new();
                let mut i: usize = 0;
                while i < units.len()
                    invariant
                        i <= units.len(),
                        errors@.len() == i,
                        forall|k: int| 0 <= k < i ==> errors@[k]@ == error_of(units@[k]@),
                    decreases units.len() - i,
                {
                    let error = ConfigError::from(&units[i]);
                    errors.push_back(error);
                    i += 1;
                }
                let validation = Validation { is_valid: false, annotations: Vec::new(), errors };
                assert(validation@.annotations =~= Seq::empty());
                assert(validation@.errors =~= validation_of(output@).errors);
                validation
            },
        }
    }
}

/// The line that a cloud-config document has to begin with.
pub const CLOUD_CONFIG_HEADER: &'static str = "#cloud-config";

/// The error of a document that does not begin with the header.
pub open spec fn header_error() -> ConfigErrorView {
    ConfigErrorView {
        description: "Cloud-config needs to begin with \"#cloud-config\""@,
        instance_path: Seq::empty(),
    }
}

/// The result for a payload once its header was looked at: a payload that
/// begins with the header keeps the result of its evaluation; any other is
/// not valid, and its errors begin with the header error.
pub open spec fn header_checked(payload: Seq<char>, result: ValidationView) -> ValidationView {
    if CLOUD_CONFIG_HEADER@.is_prefix_of(payload) {
        result
    } else {
        ValidationView {
            is_valid: false,
            annotations: result.annotations,
            errors: seq![header_error()] + result.errors,
        }
    }
}

impl Validation {
    /// Adds the check of the header to the result of evaluating `payload`.
    pub fn with_header_check(self, payload: &str) -> (checked: Validation)
        ensures
            checked@ == header_checked(payload@, self@),
    {
        if starts_with(payload, CLOUD_CONFIG_HEADER) {
            self
        } else {
            let mut checked = self;
            let format_error = ConfigError {
                description: String::from_str("Cloud-config needs to begin with \"#cloud-config\""),
                instance_path: String::new(),
            };
            checked.errors.push_front(format_error);
            checked.is_valid = false;
            assert(checked@.errors =~= seq![header_error()] + self@.errors);
            checked
        }
    }
}

/// The drafts of JSON Schema that a schema can be compiled as.
#[derive(Debug, Clone, Copy, PartialEq, Eq, Structural)]
pub enum Draft {
    Draft4,
    Draft6,
    Draft7,
}

/// Whether a compiled schema was compiled from a document that is free of
/// references. Such a schema holds no reference, and every evaluation
/// against it ends.
pub open spec fn compiled_from_resolved(compiled: jsonschema::JSONSchema) -> bool {
    exists|schema: JsonValue, draft: Draft|
        is_reference_free(schema) && #[trigger] schema_compilation(schema, draft) == Ok::<
            jsonschema::JSONSchema,
            Seq<char>,
        >(compiled)
}

/// What becomes of a document that is to be compiled as a schema of a
/// draft. A document in which a reference is left is refused as
/// unresolved. Any other is handed to the compiler, which compiles it or
/// refuses it as no schema, in its own words.
pub open spec fn compilation(schema: JsonValue, draft: Draft) -> Result<
    jsonschema::JSONSchema,
    ErrorView,
> {
    if !is_reference_free(schema) {
        Err(ErrorView::SchemaRefUnresolved)
    } else {
        match schema_compilation(schema, draft) {
            Ok(compiled) => Ok(compiled),
            Err(message) => Err(ErrorView::InvalidSchema(message)),
        }
    }
}

/// A schema without the keys `$ref` and `$defs`, as the resolution of a
/// well-referenced schema is one, is never refused as unresolved: it is
/// handed to the compiler, and the compiler's verdict is the outcome.
pub proof fn law_plain_schema_is_handed_to_the_compiler(schema: JsonValue, draft: Draft)
    requires
        is_plain(schema),
    ensures
        compilation(schema, draft) == match schema_compilation(schema, draft) {
            Ok(compiled) => Ok::<jsonschema::JSONSchema, ErrorView>(compiled),
            Err(message) => Err(ErrorView::InvalidSchema(message)),
        },
{
    lemma_plain_is_reference_free(schema);
}

/// A schema that was compiled for validating. It was compiled from a
/// document that is free of references.
#[derive(Debug)]
pub struct Validator {
    json_schema: jsonschema::JSONSchema,
}

impl Validator {
    #[verifier::type_invariant]
    spec fn resolved(self) -> bool {
        compiled_from_resolved(self.json_schema)
    }

    /// The compiled schema that the validator evaluates against.
    pub closed spec fn compiled_schema(&self) -> jsonschema::JSONSchema {
        self.json_schema
    }

    /// The result of evaluating an instance against the schema.
    pub open spec fn evaluation(&self, instance: serde_json::Value) -> ValidationView {
        validation_of(basic_output(self.compiled_schema(), instance))
    }

    /// What validating a payload comes to: for a payload that is no YAML
    /// `InvalidYaml` with the parser's message; for any other the
    /// evaluation of the document that it holds, with the check of the
    /// header added.
    pub open spec fn validation(&self, payload: Seq<char>) -> Result<ValidationView, ErrorView> {
        match yaml_document(payload) {
            Ok(instance) => Ok(header_checked(payload, self.evaluation(instance))),
            Err(message) => Err(ErrorView::InvalidYaml(message)),
        }
    }

    /// What building a validator from the text of a schema comes to, once
    /// the text was read as `raw` and resolved: what stops the resolution
    /// stops the build, and a resolved schema is compiled as one of
    /// draft 4.
    pub open spec fn built(resolution: Result<JsonValue, StopView>) -> Result<
        jsonschema::JSONSchema,
        StopView,
    > {
        match resolution {
            Err(stop) => Err(stop),
            Ok(resolved) => match compilation(resolved, Draft::Draft4) {
                Ok(compiled) => Ok(compiled),
                Err(error) => Err(StopView::Failed(error)),
            },
        }
    }

    /// Builds the validator of `kind` from the text that the schema's
    /// location served: reads the text, resolves the schema and compiles
    /// it as one of draft 4. A text that is not JSON is the failure of the
    /// request. What stops the resolution stops the build; a resolved
    /// schema that the compiler refuses gives `InvalidSchema`, and any
    /// other gives the validator.
    pub fn new(kind: ConfigKind, text: &str, resolver: &mut Resolver) -> (validator: Result<
        Validator,
        Stop,
    >)
        ensures
            final(resolver).documents == old(resolver).documents,
            final(resolver).depth == old(resolver).depth,
            final(resolver).defs is None,
            match json_document(text@) {
                Err(message) => validator matches Err(stop) && stop@ == StopView::Failed(
                    ErrorView::RequestError(message),
                ),
                Ok(raw) => match Validator::built(
                    resolve_value(old(resolver)@.documents, old(resolver)@.depth, None, raw).1,
                ) {
                    Ok(compiled) => validator matches Ok(built) && built.compiled_schema()
                        == compiled,
                    Err(stop) => validator matches Err(stopped) && stopped@ == stop,
                },
            },
    {
        match Schema::get(kind, text, resolver) {
            Ok(schema) => match Validator::try_from(schema.schema()) {
                Ok(validator) => Ok(validator),
                Err(error) => Err(Stop::Failed(error)),
            },
            Err(stop) => Err(stop),
        }
    }

    /// Builds the cloud-config validator from a snapshot of its schema
    /// that was resolved before, compiled as it is as one of draft 4. A
    /// snapshot that is not JSON gives `InvalidJson`, one in which a
    /// reference is left `SchemaRefUnresolved`, one that the compiler
    /// refuses `InvalidSchema`, and any other gives the validator.
    pub fn from_vendored_schema(snapshot: &str) -> (validator: Result<Validator, Error>)
        ensures
            match json_document(snapshot@) {
                Err(message) => validator matches Err(error) && error@ == ErrorView::InvalidJson(
                    message,
                ),
                Ok(document) => match compilation(document, Draft::Draft4) {
                    Ok(compiled) => validator matches Ok(built) && built.compiled_schema()
                        == compiled,
                    Err(refusal) => validator matches Err(error) && error@ == refusal,
                },
            },
    {
        match Schema::from_vendored(snapshot) {
            Ok(schema) => Validator::try_from(schema.schema()),
            Err(error) => Err(error),
        }
    }

    /// Compiles a resolved schema as one of the given draft. A document in
    /// which a reference is left gives `SchemaRefUnresolved`. Any other is
    /// compiled: it gives the validator that holds the compiled schema, or
    /// `InvalidSchema` with the compiler's message as it is.
    pub fn with_draft(schema: &Json, draft: Draft) -> (validator: Result<Validator, Error>)
        ensures
            match compilation(schema@, draft) {
                Ok(compiled) => validator matches Ok(built) && built.compiled_schema()
                    == compiled,
                Err(refusal) => validator matches Err(error) && error@ == refusal,
            },
    {
        if !reference_free(schema) {
            return Err(Error::SchemaRefUnresolved);
        }
        match compile(schema, draft) {
            Ok(json_schema) => Ok(Validator { json_schema }),
            Err(message) => Err(Error::InvalidSchema(message)),
        }
    }

    /// Compiles a resolved schema, as one of draft 4. A document in which
    /// a reference is left gives `SchemaRefUnresolved`. Any other is
    /// compiled: it gives the validator that holds the compiled schema, or
    /// `InvalidSchema` with the compiler's message as it is.
    pub fn try_from(schema: &Json) -> (validator: Result<Validator, Error>)
        ensures
            match compilation(schema@, Draft::Draft4) {
                Ok(compiled) => validator matches Ok(built) && built.compiled_schema()
                    == compiled,
                Err(refusal) => validator matches Err(error) && error@ == refusal,
            },
    {
        Validator::with_draft(schema, Draft::Draft4)
    }

    /// Evaluates an instance against the schema and shapes the outcome:
    /// the result is that of the basic output of this schema on this
    /// instance.
    pub fn validate(&self, inst: &serde_json::Value) -> (validation: Validation)
        ensures
            validation@ == self.evaluation(*inst),
    {
        proof {
            use_type_invariant(self);
        }
        Validation::from(apply_basic(&self.json_schema, inst))
    }

    /// Validates a payload of which the reading as YAML is at hand. A
    /// reading that failed gives `InvalidYaml` with the parser's message,
    /// and nothing is evaluated. An instance that was read is evaluated
    /// against the schema, whether or not the payload begins with the
    /// header, and the check of the header is added to that result.
    pub fn validate_parsed(
        &self,
        payload: &str,
        parsed: Result<serde_json::Value, String>,
    ) -> (outcome: Result<Validation, Error>)
        ensures
            match parsed {
                Ok(instance) => outcome matches Ok(validation) && validation@ == header_checked(
                    payload@,
                    self.evaluation(instance),
                ),
                Err(message) => outcome matches Err(error) && error@ == ErrorView::InvalidYaml(
                    message@,
                ),
            },
    {
        match parsed {
            Ok(instance) => Ok(self.validate(&instance).with_header_check(payload)),
            Err(message) => Err(Error::InvalidYaml(message)),
        }
    }

    /// Validates a YAML text. A text that is not YAML gives `InvalidYaml`
    /// with the parser's message and is not evaluated. Any other text is
    /// evaluated against the schema, whether or not it begins with the
    /// header, and the check of the header is added to that result.
    pub fn validate_yaml(&self, payload: &str) -> (outcome: Result<Validation, Error>)
        ensures
            match self.validation(payload@) {
                Ok(result) => outcome matches Ok(validation) && validation@ == result,
                Err(refusal) => outcome matches Err(error) && error@ == refusal,
            },
    {
        self.validate_parsed(payload, parse_yaml(payload))
    }
}

/// A result has one side: one that comes of a valid instance has no
/// errors, one that comes of an invalid instance has no annotations.
pub proof fn law_result_is_one_sided(output: BasicOutputView)
    ensures
        validation_of(output).is_valid ==> validation_of(output).errors.len() == 0,
        !validation_of(output).is_valid ==> validation_of(output).annotations.len() == 0,
        validation_of(output).is_valid <==> output is Valid,
{
}

/// A payload without the header is never valid, its first error is the
/// header error, and behind it stand the errors of its evaluation, with
/// the annotations of its evaluation kept.
pub proof fn law_missing_header(payload: Seq<char>, result: ValidationView)
    requires
        !CLOUD_CONFIG_HEADER@.is_prefix_of(payload),
    ensures
        !header_checked(payload, result).is_valid,
        header_checked(payload, result).errors[0] == header_error(),
        header_checked(payload, result).errors.skip(1) == result.errors,
        header_checked(payload, result).annotations == result.annotations,
{
}

/// A payload with the header has the result of its evaluation as it is.
pub proof fn law_header_present(payload: Seq<char>, result: ValidationView)
    requires
        CLOUD_CONFIG_HEADER@.is_prefix_of(payload),
    ensures
        header_checked(payload, result) == result,
{
}

/// The body of a validation request.
#[derive(Debug)]
pub struct CloudConfig {
    payload: String,
}

impl View for CloudConfig {
    type V = Seq<char>;

    /// The text to validate.
    closed spec fn view(&self) -> Seq<char> {
        self.payload@
    }
}

impl CloudConfig {
    /// The request to validate `payload`.
    pub fn new(payload: String) -> (config: CloudConfig)
        ensures
            config@ == payload@,
    {
        CloudConfig { payload }
    }

    /// The text to validate.
    pub fn payload(&self) -> (text: &str)
        ensures
            text@ == self@,
    {
        self.payload.as_str()
    }
}

} // verus!
