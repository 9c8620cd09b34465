//! Results and errors as JSON, the way they go out to a client.

use vstd::prelude::*;
use vstd::string::*;
use std::collections::VecDeque;
use crate::error::ApiError;
use crate::json::{find_from, items_view, lemma_view_parts, member, members_view, Json, JsonValue};
use crate::trusted::{json_text, render_json};
use crate::validator::{
    ConfigAnnotation, ConfigAnnotationView, ConfigError, ConfigErrorView, Validation,
    ValidationView,
};

verus! {

/// The JSON object that stands for a remark or an error.
pub open spec fn entry_json(description: Seq<char>, instance_path: Seq<char>) -> JsonValue {
    JsonValue::Object(
        seq![
            ("description"@, JsonValue::String(description)),
            ("instance_path"@, JsonValue::String(instance_path)),
        ],
    )
}

/// The description and the instance path that a JSON object stands for:
/// those of an object that holds a string under either key.
pub open spec fn entry_of(json: JsonValue) -> Option<(Seq<char>, Seq<char>)> {
    match json {
        JsonValue::Object(members) => match (
            member(members, "description"@),
            member(members, "instance_path"@),
        ) {
            (Some(JsonValue::String(description)), Some(JsonValue::String(instance_path))) => Some(
                (description, instance_path),
            ),
            _ => None,
        },
        _ => None,
    }
}

/// The remark that a JSON object stands for.
pub open spec fn annotation_entry(json: JsonValue) -> ConfigAnnotationView {
    ConfigAnnotationView {
        description: entry_of(json)->Some_0.0,
        instance_path: entry_of(json)->Some_0.1,
    }
}

/// The error that a JSON object stands for.
pub open spec fn error_entry(json: JsonValue) -> ConfigErrorView {
    ConfigErrorView {
        description: entry_of(json)->Some_0.0,
        instance_path: entry_of(json)->Some_0.1,
    }
}

impl ValidationView {
    /// The JSON object that stands for a result: its annotations, its
    /// errors and its validity, under the keys `annotations`, `errors` and
    /// `is_valid`.
    pub open spec fn to_json(self) -> JsonValue {
        JsonValue::Object(
            seq![
                (
                    "annotations"@,
                    JsonValue::Array(
                        self.annotations.map_values(
                            |a: ConfigAnnotationView| entry_json(a.description, a.instance_path),
                        ),
                    ),
                ),
                (
                    "errors"@,
                    JsonValue::Array(
                        self.errors.map_values(
                            |e: ConfigErrorView| entry_json(e.description, e.instance_path),
                        ),
                    ),
                ),
                ("is_valid"@, JsonValue::Bool(self.is_valid)),
            ],
        )
    }

    /// The result that a JSON document stands for: that of an object with
    /// a boolean under `is_valid` and, under `annotations` and `errors`,
    /// arrays of which each item stands for an entry.
    pub open spec fn from_json(json: JsonValue) -> Option<ValidationView> {
        match json {
            JsonValue::Object(members) => match (
                member(members, "is_valid"@),
                member(members, "annotations"@),
                member(members, "errors"@),
            ) {
                (
                    Some(JsonValue::Bool(is_valid)),
                    Some(JsonValue::Array(annotations)),
                    Some(JsonValue::Array(errors)),
                ) => {
                    if (forall|i: int|
                        0 <= i < annotations.len() ==> entry_of(#[trigger] annotations[i])
                            is Some) && (forall|i: int|
                        0 <= i < errors.len() ==> entry_of(#[trigger] errors[i]) is Some) {
                        Some(
                            ValidationView {
                                is_valid,
                                annotations: annotations.map_values(
                                    |item: JsonValue| annotation_entry(item),
                                ),
                                errors: errors.map_values(|item: JsonValue| error_entry(item)),
                            },
                        )
                    } else {
                        None
                    }
                },
                _ => None,
            },
            _ => None,
        }
    }
}

/// An entry is read back from the JSON object that stands for it.
pub proof fn lemma_entry_round_trip(description: Seq<char>, instance_path: Seq<char>)
    ensures
        entry_of(entry_json(description, instance_path)) == Some((description, instance_path)),
{
    reveal_strlit("description");
    reveal_strlit("instance_path");
    reveal_with_fuel(find_from, 3);
    let members = entry_json(description, instance_path)->Object_0;
    assert(members[0].0.len() != members[1].0.len());
}

/// A result is read back from the JSON document that stands for it: its
/// validity, its errors and its annotations come back as they were.
pub proof fn law_json_round_trip(validation: ValidationView)
    ensures
        ValidationView::from_json(validation.to_json()) == Some(validation),
{
    reveal_strlit("annotations");
    reveal_strlit("errors");
    reveal_strlit("is_valid");
    reveal_with_fuel(find_from, 4);
    let json = validation.to_json();
    let members = json->Object_0;
    let annotations = members[0].1->Array_0;
    let errors = members[1].1->Array_0;
    assert(members[0].0.len() == 11 && members[1].0.len() == 6 && members[2].0.len() == 8);
    assert forall|i: int| 0 <= i < annotations.len() implies entry_of(#[trigger] annotations[i])
        == Some((validation.annotations[i].description, validation.annotations[i].instance_path)) by {
        lemma_entry_round_trip(
            validation.annotations[i].description,
            validation.annotations[i].instance_path,
        );
    }
    assert forall|i: int| 0 <= i < errors.len() implies entry_of(#[trigger] errors[i]) == Some(
        (validation.errors[i].description, validation.errors[i].instance_path),
    ) by {
        lemma_entry_round_trip(validation.errors[i].description, validation.errors[i].instance_path);
    }
    let back = ValidationView::from_json(json)->Some_0;
    assert(back.annotations =~= validation.annotations);
    assert(back.errors =~= validation.errors);
}

/// The JSON object that stands for an entry.
fn entry_to_json(description: &String, instance_path: &String) -> (json: Json)
    ensures
        json@ == entry_json(description@, instance_path@),
{
    let mut members: Vec<(String, Json)> = Vec::new();
    members.push((String::from_str("description"), Json::String(description.clone())));
    members.push((String::from_str("instance_path"), Json::String(instance_path.clone())));
    let json = Json::Object(members);
    proof {
        lemma_view_parts(json);
        assert(members_view(members@) =~= entry_json(description@, instance_path@)->Object_0);
    }
    json
}

/// The description and the instance path that a JSON object stands for.
fn entry_from_json(json: &Json) -> (entry: Option<(String, String)>)
    ensures
        match entry {
            Some(pair) => entry_of(json@) == Some((pair.0@, pair.1@)),
            None => entry_of(json@) is None,
        },
{
    match json {
        Json::Object(_) => match (json.get("description"), json.get("instance_path")) {
            (Some(Json::String(description)), Some(Json::String(instance_path))) => Some(
                (description.clone(), instance_path.clone()),
            ),
            _ => None,
        },
        _ => None,
    }
}

impl Validation {
    /// The JSON document that stands for the result.
    pub fn to_json(&self) -> (json: Json)
        ensures
            json@ == self@.to_json(),
    {
        let mut annotations: Vec<Json> = Vec::new();
        let mut i: usize = 0;
        while i < self.annotations.len()
            invariant
                i <= self.annotations.len(),
                annotations@.len() == i,
                forall|k: int|
                    0 <= k < i ==> annotations@[k]@ == entry_json(
                        self.annotations@[k].description@,
                        self.annotations@[k].instance_path@,
                    ),
            decreases self.annotations.len() - i,
        {
            let entry = entry_to_json(
                &self.annotations[i].description,
                &self.annotations[i].instance_path,
            );
            annotations.push(entry);
            i += 1;
        }
        let mut errors: Vec<Json> = Vec::new();
        let mut j: usize = 0;
        while j < self.errors.len()
            invariant
                j <= self.errors.len(),
                errors@.len() == j,
                forall|k: int|
                    0 <= k < j ==> errors@[k]@ == entry_json(
                        self.errors@[k].description@,
                        self.errors@[k].instance_path@,
                    ),
            decreases self.errors.len() - j,
        {
            let entry = entry_to_json(&self.errors[j].description, &self.errors[j].instance_path);
            errors.push(entry);
            j += 1;
        }
        let annotations_json = Json::Array(annotations);
        let errors_json = Json::Array(errors);
        proof {
            lemma_view_parts(annotations_json);
            lemma_view_parts(errors_json);
            assert(items_view(annotations@) =~= self@.to_json()->Object_0[0].1->Array_0);
            assert(items_view(errors@) =~= self@.to_json()->Object_0[1].1->Array_0);
        }
        let mut members: Vec<(String, Json)> = Vec::new();
        members.push((String::from_str("annotations"), annotations_json));
        members.push((String::from_str("errors"), errors_json));
        members.push((String::from_str("is_valid"), Json::Bool(self.is_valid)));
        let json = Json::Object(members);
        proof {
            lemma_view_parts(json);
            assert(members_view(members@) =~= self@.to_json()->Object_0);
        }
        json
    }

    /// The JSON text that stands for the result.
    pub fn to_json_text(&self) -> (text: String)
        ensures
            text@ == json_text(self@.to_json()),
    {
        let json = self.to_json();
        render_json(&json)
    }

    /// The result that a JSON document stands for, if it stands for one.
    pub fn from_json(json: &Json) -> (validation: Option<Validation>)
        ensures
            match validation {
                Some(read) => ValidationView::from_json(json@) == Some(read@),
                None => ValidationView::from_json(json@) is None,
            },
    {
        match json {
            Json::Object(_) => match (
                json.get("is_valid"),
                json.get("annotations"),
                json.get("errors"),
            ) {
                (
                    Some(Json::Bool(is_valid)),
                    Some(Json::Array(annotation_items)),
                    Some(Json::Array(error_items)),
                ) => {
                    proof {
                        lemma_view_parts(Json::Array(*annotation_items));
                        lemma_view_parts(Json::Array(*error_items));
                    }
                    let ghost annotations_viewed = items_view(annotation_items@);
                    let ghost errors_viewed = items_view(error_items@);
                    let mut annotations: Vec<ConfigAnnotation> = Vec::new();
                    let mut i: usize = 0;
                    while i < annotation_items.len()
                        invariant
                            i <= annotation_items.len(),
                            annotations_viewed == items_view(annotation_items@),
                            annotations@.len() == i,
                            json@ is Object,
                            member(json@->Object_0, "is_valid"@) == Some(
                                JsonValue::Bool(*is_valid),
                            ),
                            member(json@->Object_0, "annotations"@) == Some(
                                JsonValue::Array(annotations_viewed),
                            ),
                            member(json@->Object_0, "errors"@) == Some(
                                JsonValue::Array(errors_viewed),
                            ),
                            forall|k: int|
                                0 <= k < i ==> entry_of(#[trigger] annotations_viewed[k])
                                    is Some && annotations@[k]@ == annotation_entry(
                                    annotations_viewed[k],
                                ),
                        decreases annotation_items.len() - i,
                    {
                        match entry_from_json(&annotation_items[i]) {
                            Some(pair) => {
                                annotations.push(
                                    ConfigAnnotation { description: pair.0, instance_path: pair.1 },
                                );
                            },
                            None => {
                                assert(entry_of(annotations_viewed[i as int]) is None);
                                return None;
                            },
                        }
                        i += 1;
                    }
                    let mut errors: VecDeque<ConfigError> = VecDeque::new();
                    let mut j: usize = 0;
                    while j < error_items.len()
                        invariant
                            j <= error_items.len(),
                            errors_viewed == items_view(error_items@),
                            errors@.len() == j,
                            json@ is Object,
                            member(json@->Object_0, "is_valid"@) == Some(
                                JsonValue::Bool(*is_valid),
                            ),
                            member(json@->Object_0, "annotations"@) == Some(
                                JsonValue::Array(annotations_viewed),
                            ),
                            member(json@->Object_0, "errors"@) == Some(
                                JsonValue::Array(errors_viewed),
                            ),
                            forall|k: int|
                                0 <= k < j ==> entry_of(#[trigger] errors_viewed[k]) is Some
                                    && errors@[k]@ == error_entry(errors_viewed[k]),
                        decreases error_items.len() - j,
                    {
                        match entry_from_json(&error_items[j]) {
                            Some(pair) => {
                                errors.push_back(
                                    ConfigError { description: pair.0, instance_path: pair.1 },
                                );
                            },
                            None => {
                                assert(entry_of(errors_viewed[j as int]) is None);
                                return None;
                            },
                        }
                        j += 1;
                    }
                    let read = Validation { is_valid: *is_valid, annotations, errors };
                    proof {
                        let expected = ValidationView::from_json(json@)->Some_0;
                        assert(read@.annotations =~= expected.annotations);
                        assert(read@.errors =~= expected.errors);
                    }
                    Some(read)
                },
                _ => None,
            },
            _ => None,
        }
    }
}

/// The JSON object that reports an error to a client: the error's text,
/// alone in an array under the key `errors`.
pub open spec fn errors_json(error: Seq<char>) -> JsonValue {
    JsonValue::Object(seq![("errors"@, JsonValue::Array(seq![JsonValue::String(error)]))])
}

impl ApiError {
    /// The JSON document that reports the error to a client.
    pub fn to_json(&self) -> (json: Json)
        ensures
            json@ == errors_json(self.error@),
    {
        let mut errors: Vec<Json> = Vec::new();
        errors.push(Json::String(self.error.clone()));
        let listed = Json::Array(errors);
        proof {
            lemma_view_parts(listed);
        }
        let mut members: Vec<(String, Json)> = Vec::new();
        members.push((String::from_str("errors"), listed));
        let json = Json::Object(members);
        proof {
            lemma_view_parts(json);
            assert(items_view(errors@) =~= seq![JsonValue::String(self.error@)]);
            assert(members_view(members@) =~= errors_json(self.error@)->Object_0);
        }
        json
    }

    /// The JSON text that reports the error to a client.
    pub fn to_json_text(&self) -> (text: String)
        ensures
            text@ == json_text(errors_json(self.error@)),
    {
        let json = self.to_json();
        render_json(&json)
    }
}

} // verus!
