//! Resolving a schema: every reference in it is replaced by what it stands
//! for, so that the result can be compiled as it is.
//!
//! A reference is followed among the definitions of the schema or into a
//! document that was fetched for it. The resolver fetches nothing itself: a
//! resolution that needs a document stops and names it, and is started again
//! once the resolver was handed that document.

use vstd::prelude::*;
use vstd::string::*;
use crate::error::{Error, ErrorView};
use crate::json::{
    find_member, items_view, lemma_find_from, lemma_member_wf, lemma_place_from,
    lemma_view_parts, lemma_with_member_parts, lemma_with_member_wf, member, members_view,
    place_from,
    set_member, with_member, Json, JsonValue,
};
use crate::text::{
    find_last_slash, last_slash, lemma_last_slash, lemma_text_before_irreflexive, starts_with,
    text_before,
};
use crate::trusted::{
    is_absolute_url, json_document, parse_json, parses_as_url, pointer_lookup, pointer_target,
};

verus! {

/// Why a resolution ended without a resolved schema.
#[derive(Debug, PartialEq)]
pub enum Stop {
    /// The schema refers to the document at this URL, which the resolver
    /// was not given yet.
    NeedsDocument(String),
    /// The schema cannot be resolved.
    Failed(Error),
    /// References nest deeper than the resolver allows.
    TooDeep,
}

pub enum StopView {
    NeedsDocument(Seq<char>),
    Failed(ErrorView),
    TooDeep,
}

impl View for Stop {
    type V = StopView;

    open spec fn view(&self) -> StopView {
        match self {
            Stop::NeedsDocument(url) => StopView::NeedsDocument(url@),
            Stop::Failed(error) => StopView::Failed(error@),
            Stop::TooDeep => StopView::TooDeep,
        }
    }
}

impl Stop {
    /// The error that a stop ends a build with. A request for a document
    /// is none: the build goes on once the document was handed over.
    /// References that nest too deep are references left unresolved.
    pub fn failure(self) -> (error: Option<Error>)
        ensures
            match self@ {
                StopView::NeedsDocument(_) => error is None,
                StopView::Failed(failed) => error matches Some(e) && e@ == failed,
                StopView::TooDeep => error matches Some(e) && e@
                    == ErrorView::SchemaRefUnresolved,
            },
    {
        match self {
            Stop::NeedsDocument(_) => None,
            Stop::Failed(failed) => Some(failed),
            Stop::TooDeep => Some(Error::SchemaRefUnresolved),
        }
    }
}

/// The key under which an object refers to another schema.
pub const REF: &'static str = "$ref";

/// The key under which an object declares its definitions.
pub const DEFS: &'static str = "$defs";

/// What a reference into the definitions begins with.
pub const LOCAL_PREFIX: &'static str = "#/$defs";

/// Whether a reference points into the definitions.
pub open spec fn is_local(reference: Seq<char>) -> bool {
    LOCAL_PREFIX@.is_prefix_of(reference)
}

/// The pointer by which a reference is looked up among the definitions:
/// what follows the prefix of a local reference, else the whole reference.
pub open spec fn pointer_of(reference: Seq<char>) -> Seq<char> {
    if is_local(reference) {
        reference.skip(LOCAL_PREFIX@.len() as int)
    } else {
        reference
    }
}

/// The name under which the referent of a local reference is inserted: the
/// last segment of its pointer. There is none where the pointer has no `'/'`.
pub open spec fn local_name(reference: Seq<char>) -> Option<Seq<char>> {
    let pointer = pointer_of(reference);
    match last_slash(pointer, 0) {
        Some(at) => Some(pointer.skip(at + 1)),
        None => None,
    }
}

/// The definition under a pointer; none while no definitions were seen.
pub open spec fn definition(defs: Option<JsonValue>, pointer: Seq<char>) -> Option<JsonValue> {
    match defs {
        Some(table) => pointer_target(table, pointer),
        None => None,
    }
}

/// The definition that a pointer leads to, or the failure to find one.
pub open spec fn defined(defs: Option<JsonValue>, pointer: Seq<char>) -> Result<
    JsonValue,
    StopView,
> {
    match definition(defs, pointer) {
        Some(found) => Ok(found),
        None => Err(StopView::Failed(ErrorView::LocalSchemaRefNotFound { reference: pointer })),
    }
}

/// What a reference stands for. A local reference stands for the
/// definition under its pointer. Of the others, an absolute URL stands for
/// its document, which has to be among `documents`, and anything else is
/// itself the pointer to a definition.
pub open spec fn referent(
    documents: Seq<(Seq<char>, JsonValue)>,
    defs: Option<JsonValue>,
    reference: Seq<char>,
) -> Result<JsonValue, StopView> {
    if !is_local(reference) && is_absolute_url(reference) {
        match member(documents, reference) {
            Some(document) => Ok(document),
            None => Err(StopView::NeedsDocument(reference)),
        }
    } else {
        defined(defs, pointer_of(reference))
    }
}

/// The resolution of a schema, with the definitions that are in force when
/// it ends. `defs` are the definitions in force when it begins, and `depth`
/// says how many references may still be followed inside one another.
///
/// A scalar is kept. The items of an array are resolved in their order. An
/// object first puts its own `$defs` in force, then resolves its members
/// in their order.
pub open spec fn resolve_value(
    documents: Seq<(Seq<char>, JsonValue)>,
    depth: nat,
    defs: Option<JsonValue>,
    value: JsonValue,
) -> (Option<JsonValue>, Result<JsonValue, StopView>)
    decreases depth, value, 0nat,
{
    match value {
        JsonValue::Array(items) => resolve_items(documents, depth, defs, items, 0, Seq::empty()),
        JsonValue::Object(members) => {
            let table = match member(members, DEFS@) {
                Some(captured) => Some(captured),
                None => defs,
            };
            resolve_members(documents, depth, table, members, 0, Seq::empty())
        },
        _ => (defs, Ok(value)),
    }
}

/// The resolution of the items of an array from index `from` on, where
/// `done` holds the resolved items before it.
pub open spec fn resolve_items(
    documents: Seq<(Seq<char>, JsonValue)>,
    depth: nat,
    defs: Option<JsonValue>,
    items: Seq<JsonValue>,
    from: nat,
    done: Seq<JsonValue>,
) -> (Option<JsonValue>, Result<JsonValue, StopView>)
    decreases depth, items, items.len() - from,
{
    if from >= items.len() {
        (defs, Ok(JsonValue::Array(done)))
    } else {
        let (table, outcome) = resolve_value(documents, depth, defs, items[from as int]);
        match outcome {
            Ok(item) => resolve_items(documents, depth, table, items, from + 1, done.push(item)),
            Err(stop) => (table, Err(stop)),
        }
    }
}

/// The resolution of the members of an object from index `from` on, where
/// `done` holds the members of the result so far.
///
/// A `$defs` member is dropped. A `$ref` member with a local reference is
/// replaced by a member named after the last segment of the reference, which
/// holds the resolved referent. A `$ref` member with any other reference
/// ends the object: the result is the resolved referent alone. Any other
/// member keeps its key and holds its resolved value.
pub open spec fn resolve_members(
    documents: Seq<(Seq<char>, JsonValue)>,
    depth: nat,
    defs: Option<JsonValue>,
    members: Seq<(Seq<char>, JsonValue)>,
    from: nat,
    done: Seq<(Seq<char>, JsonValue)>,
) -> (Option<JsonValue>, Result<JsonValue, StopView>)
    decreases depth, members, members.len() - from,
{
    if from >= members.len() {
        (defs, Ok(JsonValue::Object(done)))
    } else {
        let key = members[from as int].0;
        let value = members[from as int].1;
        if key == DEFS@ {
            resolve_members(documents, depth, defs, members, from + 1, done)
        } else if key == REF@ && value is String {
            let reference = value->String_0;
            if is_local(reference) && local_name(reference) is None {
                (
                    defs,
                    Err(
                        StopView::Failed(
                            ErrorView::LocalSchemaRefInvalidName { reference: reference },
                        ),
                    ),
                )
            } else {
                match referent(documents, defs, reference) {
                    Err(stop) => (defs, Err(stop)),
                    Ok(target) => {
                        if depth == 0 {
                            (defs, Err(StopView::TooDeep))
                        } else {
                            let (table, outcome) = resolve_value(
                                documents,
                                (depth - 1) as nat,
                                defs,
                                target,
                            );
                            if is_local(reference) {
                                match outcome {
                                    Ok(resolved) => resolve_members(
                                        documents,
                                        depth,
                                        table,
                                        members,
                                        from + 1,
                                        with_member(done, local_name(reference)->Some_0, resolved),
                                    ),
                                    Err(stop) => (table, Err(stop)),
                                }
                            } else {
                                (table, outcome)
                            }
                        }
                    },
                }
            }
        } else {
            let (table, outcome) = resolve_value(documents, depth, defs, value);
            match outcome {
                Ok(resolved) => resolve_members(
                    documents,
                    depth,
                    table,
                    members,
                    from + 1,
                    with_member(done, key, resolved),
                ),
                Err(stop) => (table, Err(stop)),
            }
        }
    }
}

/// A local reference to a definition that is missing fails the
/// resolution: when the resolution of an object comes to a member `$ref`
/// whose local reference has a name and leads to no definition, it ends
/// with `LocalSchemaRefNotFound`, which names the pointer.
pub proof fn law_missing_definition_is_not_found(
    documents: Seq<(Seq<char>, JsonValue)>,
    depth: nat,
    defs: Option<JsonValue>,
    members: Seq<(Seq<char>, JsonValue)>,
    from: nat,
    done: Seq<(Seq<char>, JsonValue)>,
    reference: Seq<char>,
)
    requires
        from < members.len(),
        members[from as int] == (REF@, JsonValue::String(reference)),
        is_local(reference),
        local_name(reference) is Some,
        definition(defs, pointer_of(reference)) is None,
    ensures
        resolve_members(documents, depth, defs, members, from, done) == (
            defs,
            Err::<JsonValue, StopView>(
                StopView::Failed(
                    ErrorView::LocalSchemaRefNotFound { reference: pointer_of(reference) },
                ),
            ),
        ),
{
    lemma_keys_differ();
}

/// A local reference without a separator behind the prefix fails the
/// resolution: when the resolution of an object comes to a member `$ref`
/// whose local reference has no `'/'` in its pointer, it ends with
/// `LocalSchemaRefInvalidName`, which names the reference.
pub proof fn law_reference_without_separator_has_no_name(
    documents: Seq<(Seq<char>, JsonValue)>,
    depth: nat,
    defs: Option<JsonValue>,
    members: Seq<(Seq<char>, JsonValue)>,
    from: nat,
    done: Seq<(Seq<char>, JsonValue)>,
    reference: Seq<char>,
)
    requires
        from < members.len(),
        members[from as int] == (REF@, JsonValue::String(reference)),
        is_local(reference),
        last_slash(pointer_of(reference), 0) is None,
    ensures
        resolve_members(documents, depth, defs, members, from, done) == (
            defs,
            Err::<JsonValue, StopView>(
                StopView::Failed(ErrorView::LocalSchemaRefInvalidName { reference }),
            ),
        ),
{
    lemma_keys_differ();
}

/// A local reference is replaced by a member that is named after it: when
/// the resolution of an object comes to a member `$ref` whose local
/// reference leads to a definition, and that definition resolves to
/// `resolved`, the resolution goes on with `resolved` set under the last
/// segment of the reference. The key `$ref` is gone, and a member that had
/// that name before is overwritten.
pub proof fn law_local_reference_is_renamed(
    documents: Seq<(Seq<char>, JsonValue)>,
    depth: nat,
    defs: Option<JsonValue>,
    members: Seq<(Seq<char>, JsonValue)>,
    from: nat,
    done: Seq<(Seq<char>, JsonValue)>,
    reference: Seq<char>,
)
    requires
        from < members.len(),
        members[from as int] == (REF@, JsonValue::String(reference)),
        is_local(reference),
        local_name(reference) is Some,
        definition(defs, pointer_of(reference)) is Some,
        depth > 0,
        resolve_value(
            documents,
            (depth - 1) as nat,
            defs,
            definition(defs, pointer_of(reference))->Some_0,
        ).1 is Ok,
    ensures
        ({
            let target = definition(defs, pointer_of(reference))->Some_0;
            let (table, outcome) = resolve_value(documents, (depth - 1) as nat, defs, target);
            resolve_members(documents, depth, defs, members, from, done) == resolve_members(
                documents,
                depth,
                table,
                members,
                from + 1,
                with_member(done, local_name(reference)->Some_0, outcome->Ok_0),
            )
        }),
{
    lemma_keys_differ();
}

/// Any other reference replaces the whole object: when the resolution of
/// an object comes to a member `$ref` with a reference that is not local,
/// the outcome is that of resolving what the reference stands for. The
/// members that were resolved before and those that follow are dropped.
pub proof fn law_other_reference_replaces_the_object(
    documents: Seq<(Seq<char>, JsonValue)>,
    depth: nat,
    defs: Option<JsonValue>,
    members: Seq<(Seq<char>, JsonValue)>,
    from: nat,
    done: Seq<(Seq<char>, JsonValue)>,
    reference: Seq<char>,
)
    requires
        from < members.len(),
        members[from as int] == (REF@, JsonValue::String(reference)),
        !is_local(reference),
        referent(documents, defs, reference) is Ok,
        depth > 0,
    ensures
        resolve_members(documents, depth, defs, members, from, done) == resolve_value(
            documents,
            (depth - 1) as nat,
            defs,
            referent(documents, defs, reference)->Ok_0,
        ),
{
    lemma_keys_differ();
}

/// The keys `$ref` and `$defs` are two keys.
proof fn lemma_keys_differ()
    ensures
        REF@ != DEFS@,
{
    reveal_strlit("$ref");
    reveal_strlit("$defs");
    assert(REF@.len() != DEFS@.len());
}

/// Whether the references of a document can all be told from its other
/// members and be resolved away: whatever stands under `$ref` is a string,
/// and no local reference is named `$ref` or `$defs`.
pub open spec fn is_well_referenced(value: JsonValue) -> bool
    decreases value,
{
    match value {
        JsonValue::Array(items) => forall|i: int|
            #![trigger items[i]]
            0 <= i < items.len() ==> is_well_referenced(items[i]),
        JsonValue::Object(members) => forall|i: int|
            #![trigger members[i]]
            0 <= i < members.len() ==> {
                &&& members[i].0 == REF@ ==> is_named_reference(members[i].1)
                &&& is_well_referenced(members[i].1)
            },
        _ => true,
    }
}

/// Whether a value is a reference that, where it is local, is named
/// otherwise than `$ref` and `$defs`.
pub open spec fn is_named_reference(value: JsonValue) -> bool {
    &&& value is String
    &&& is_local(value->String_0) ==> {
        &&& local_name(value->String_0) != Some(REF@)
        &&& local_name(value->String_0) != Some(DEFS@)
    }
}

/// A member of well-referenced members is well referenced.
pub proof fn lemma_member_well_referenced(members: Seq<(Seq<char>, JsonValue)>, key: Seq<char>)
    requires
        forall|i: int|
            #![trigger members[i]]
            0 <= i < members.len() ==> is_well_referenced(members[i].1),
    ensures
        member(members, key) matches Some(value) ==> is_well_referenced(value),
{
    lemma_find_from(members, key, 0);
}

/// Setting a member with a plain key to a plain value keeps an object
/// plain.
pub proof fn lemma_with_member_plain(
    members: Seq<(Seq<char>, JsonValue)>,
    key: Seq<char>,
    value: JsonValue,
)
    requires
        is_plain(JsonValue::Object(members)),
        is_plain(value),
        key != REF@,
        key != DEFS@,
    ensures
        is_plain(JsonValue::Object(with_member(members, key, value))),
{
    let after = with_member(members, key, value);
    assert(JsonValue::Object(members)->Object_0 == members);
    assert(JsonValue::Object(after)->Object_0 == after);
    lemma_with_member_parts(members, key, value);
    assert forall|i: int| #![trigger after[i]] 0 <= i < after.len() implies {
        &&& after[i].0 != REF@
        &&& after[i].0 != DEFS@
        &&& is_plain(after[i].1)
    } by {
        if after[i] != (key, value) {
            let j = choose|j: int| 0 <= j < members.len() && after[i] == members[j];
            assert(is_plain(members[j].1));
        }
    }
}

/// Whether a document is free of references: no object in it holds a
/// string under `$ref`.
pub open spec fn is_reference_free(value: JsonValue) -> bool
    decreases value,
{
    match value {
        JsonValue::Array(items) => forall|i: int|
            #![trigger items[i]]
            0 <= i < items.len() ==> is_reference_free(items[i]),
        JsonValue::Object(members) => forall|i: int|
            #![trigger members[i]]
            0 <= i < members.len() ==> {
                &&& !(members[i].0 == REF@ && members[i].1 is String)
                &&& is_reference_free(members[i].1)
            },
        _ => true,
    }
}

/// A document without the keys `$ref` and `$defs` is free of references.
pub proof fn lemma_plain_is_reference_free(value: JsonValue)
    requires
        is_plain(value),
    ensures
        is_reference_free(value),
    decreases value,
{
    match value {
        JsonValue::Array(items) => {
            assert forall|i: int| #![trigger items[i]] 0 <= i < items.len() implies is_reference_free(
                items[i],
            ) by {
                lemma_plain_is_reference_free(items[i]);
            }
        },
        JsonValue::Object(members) => {
            assert forall|i: int| #![trigger members[i]] 0 <= i < members.len() implies {
                &&& !(members[i].0 == REF@ && members[i].1 is String)
                &&& is_reference_free(members[i].1)
            } by {
                lemma_plain_is_reference_free(members[i].1);
            }
        },
        _ => {},
    }
}

/// Whether a schema is free of references and definitions: no object in
/// it has a member `$ref` or `$defs`.
pub open spec fn is_plain(value: JsonValue) -> bool
    decreases value,
{
    match value {
        JsonValue::Array(items) => forall|i: int|
            #![trigger items[i]]
            0 <= i < items.len() ==> is_plain(items[i]),
        JsonValue::Object(members) => forall|i: int|
            #![trigger members[i]]
            0 <= i < members.len() ==> {
                &&& members[i].0 != REF@
                &&& members[i].0 != DEFS@
                &&& is_plain(members[i].1)
            },
        _ => true,
    }
}

/// Resolving a schema without references and definitions changes nothing:
/// the result is the schema itself, and the definitions in force stay as
/// they were, whatever documents were fetched and however deep references
/// may nest.
pub proof fn law_plain_schema_is_kept(
    documents: Seq<(Seq<char>, JsonValue)>,
    depth: nat,
    defs: Option<JsonValue>,
    value: JsonValue,
)
    requires
        value.wf(),
        is_plain(value),
    ensures
        resolve_value(documents, depth, defs, value) == (defs, Ok::<JsonValue, StopView>(value)),
    decreases value, 0nat,
{
    match value {
        JsonValue::Array(items) => {
            assert(items.take(0) =~= Seq::empty());
            lemma_plain_items_are_kept(documents, depth, defs, items, 0);
        },
        JsonValue::Object(members) => {
            lemma_find_from(members, DEFS@, 0);
            assert(members.take(0) =~= Seq::empty());
            lemma_plain_members_are_kept(documents, depth, defs, members, 0);
        },
        _ => {},
    }
}

/// The items of a plain array resolve to themselves.
proof fn lemma_plain_items_are_kept(
    documents: Seq<(Seq<char>, JsonValue)>,
    depth: nat,
    defs: Option<JsonValue>,
    items: Seq<JsonValue>,
    from: nat,
)
    requires
        JsonValue::Array(items).wf(),
        is_plain(JsonValue::Array(items)),
        from <= items.len(),
    ensures
        resolve_items(documents, depth, defs, items, from, items.take(from as int)) == (
            defs,
            Ok::<JsonValue, StopView>(JsonValue::Array(items)),
        ),
    decreases items, items.len() - from,
{
    if from < items.len() {
        assert(JsonValue::Array(items)->Array_0 == items);
        law_plain_schema_is_kept(documents, depth, defs, items[from as int]);
        assert(items.take(from as int).push(items[from as int]) =~= items.take(from + 1int));
        lemma_plain_items_are_kept(documents, depth, defs, items, from + 1);
    } else {
        assert(items.take(from as int) =~= items);
    }
}

/// The members of a plain object resolve to themselves.
proof fn lemma_plain_members_are_kept(
    documents: Seq<(Seq<char>, JsonValue)>,
    depth: nat,
    defs: Option<JsonValue>,
    members: Seq<(Seq<char>, JsonValue)>,
    from: nat,
)
    requires
        JsonValue::Object(members).wf(),
        is_plain(JsonValue::Object(members)),
        from <= members.len(),
    ensures
        resolve_members(documents, depth, defs, members, from, members.take(from as int)) == (
            defs,
            Ok::<JsonValue, StopView>(JsonValue::Object(members)),
        ),
    decreases members, members.len() - from,
{
    if from < members.len() {
        let key = members[from as int].0;
        let value = members[from as int].1;
        let done = members.take(from as int);
        law_plain_schema_is_kept(documents, depth, defs, value);
        lemma_place_from(done, key, 0);
        lemma_text_before_irreflexive(key);
        assert(JsonValue::Object(members)->Object_0 == members);
        assert forall|j: int| 0 <= j < done.len() implies text_before(
            #[trigger] done[j].0,
            key,
        ) by {
            assert(done[j] == members[j]);
        }
        assert(place_from(done, key, 0) == done.len());
        assert(with_member(done, key, value) =~= members.take(from + 1int));
        lemma_plain_members_are_kept(documents, depth, defs, members, from + 1);
    } else {
        assert(members.take(from as int) =~= members);
    }
}

/// Whether documents and definitions are well referenced.
pub open spec fn are_well_referenced(
    documents: Seq<(Seq<char>, JsonValue)>,
    defs: Option<JsonValue>,
) -> bool {
    &&& forall|i: int|
        #![trigger documents[i]]
        0 <= i < documents.len() ==> is_well_referenced(documents[i].1)
    &&& defs matches Some(table) ==> is_well_referenced(table)
}

/// Whether the resolution of a document meets no reference: no object in
/// it holds a string under `$ref`, but for what stands under `$defs`, which
/// is not resolved.
pub open spec fn is_unreferenced(value: JsonValue) -> bool
    decreases value, 0nat,
{
    match value {
        JsonValue::Array(items) => forall|i: int|
            #![trigger items[i]]
            0 <= i < items.len() ==> is_unreferenced(items[i]),
        JsonValue::Object(members) => forall|i: int|
            #![trigger members[i]]
            0 <= i < members.len() ==> is_unreferenced_member(members[i]),
        _ => true,
    }
}

/// Whether the resolution of a member meets no reference: it is a `$defs`
/// member, or it is no reference and its value is unreferenced.
pub open spec fn is_unreferenced_member(member: (Seq<char>, JsonValue)) -> bool
    decreases member.1, 1nat,
{
    member.0 == DEFS@ || (!(member.0 == REF@ && member.1 is String) && is_unreferenced(member.1))
}

/// Whether `reference` is the first reference that the resolution of a
/// document meets.
pub open spec fn meets_first(value: JsonValue, reference: Seq<char>) -> bool
    decreases value, 0nat,
{
    match value {
        JsonValue::Array(items) => item_meets_first(items, 0, reference),
        JsonValue::Object(members) => member_meets_first(members, 0, reference),
        _ => false,
    }
}

/// Whether `reference` is the first reference that the resolution of the
/// items from `from` on meets.
pub open spec fn item_meets_first(items: Seq<JsonValue>, from: nat, reference: Seq<char>) -> bool
    decreases items, items.len() - from,
{
    if from >= items.len() {
        false
    } else if is_unreferenced(items[from as int]) {
        item_meets_first(items, from + 1, reference)
    } else {
        meets_first(items[from as int], reference)
    }
}

/// Whether `reference` is the first reference that the resolution of the
/// members from `from` on meets.
pub open spec fn member_meets_first(
    members: Seq<(Seq<char>, JsonValue)>,
    from: nat,
    reference: Seq<char>,
) -> bool
    decreases members, members.len() - from,
{
    if from >= members.len() {
        false
    } else if is_unreferenced_member(members[from as int]) {
        member_meets_first(members, from + 1, reference)
    } else if members[from as int].0 == REF@ && members[from as int].1 is String {
        members[from as int].1 == JsonValue::String(reference)
    } else {
        meets_first(members[from as int].1, reference)
    }
}

/// The definitions that are in force when the resolution of a document
/// meets its first reference.
pub open spec fn table_at_first(
    documents: Seq<(Seq<char>, JsonValue)>,
    depth: nat,
    defs: Option<JsonValue>,
    value: JsonValue,
) -> Option<JsonValue>
    decreases value, 0nat,
{
    match value {
        JsonValue::Array(items) => table_at_first_item(documents, depth, defs, items, 0),
        JsonValue::Object(members) => {
            let table = match member(members, DEFS@) {
                Some(captured) => Some(captured),
                None => defs,
            };
            table_at_first_member(documents, depth, table, members, 0)
        },
        _ => defs,
    }
}

/// The definitions that are in force when the resolution of the items from
/// `from` on meets its first reference.
pub open spec fn table_at_first_item(
    documents: Seq<(Seq<char>, JsonValue)>,
    depth: nat,
    defs: Option<JsonValue>,
    items: Seq<JsonValue>,
    from: nat,
) -> Option<JsonValue>
    decreases items, items.len() - from,
{
    if from >= items.len() {
        defs
    } else if is_unreferenced(items[from as int]) {
        table_at_first_item(
            documents,
            depth,
            resolve_value(documents, depth, defs, items[from as int]).0,
            items,
            from + 1,
        )
    } else {
        table_at_first(documents, depth, defs, items[from as int])
    }
}

/// The definitions that are in force when the resolution of the members
/// from `from` on meets its first reference.
pub open spec fn table_at_first_member(
    documents: Seq<(Seq<char>, JsonValue)>,
    depth: nat,
    defs: Option<JsonValue>,
    members: Seq<(Seq<char>, JsonValue)>,
    from: nat,
) -> Option<JsonValue>
    decreases members, members.len() - from,
{
    if from >= members.len() {
        defs
    } else if members[from as int].0 == DEFS@ {
        table_at_first_member(documents, depth, defs, members, from + 1)
    } else if members[from as int].0 == REF@ && members[from as int].1 is String {
        defs
    } else if is_unreferenced(members[from as int].1) {
        table_at_first_member(
            documents,
            depth,
            resolve_value(documents, depth, defs, members[from as int].1).0,
            members,
            from + 1,
        )
    } else {
        table_at_first(documents, depth, defs, members[from as int].1)
    }
}

/// What the resolution of a schema ends in whose first reference is local
/// and cannot be resolved. A reference without a separator behind the
/// prefix gives `LocalSchemaRefInvalidName`, which names the reference. A
/// reference with a name, for whose pointer the definitions in force hold
/// nothing, gives `LocalSchemaRefNotFound`, which names the pointer.
pub proof fn law_first_reference_fails(
    documents: Seq<(Seq<char>, JsonValue)>,
    depth: nat,
    defs: Option<JsonValue>,
    value: JsonValue,
    reference: Seq<char>,
)
    requires
        meets_first(value, reference),
        is_local(reference),
        local_name(reference) is None || definition(
            table_at_first(documents, depth, defs, value),
            pointer_of(reference),
        ) is None,
    ensures
        resolve_value(documents, depth, defs, value).1 == Err::<JsonValue, StopView>(
            StopView::Failed(first_failure(reference)),
        ),
    decreases value, 0nat,
{
    match value {
        JsonValue::Array(items) => {
            lemma_first_item_fails(documents, depth, defs, items, 0, Seq::empty(), reference);
        },
        JsonValue::Object(members) => {
            let table = match member(members, DEFS@) {
                Some(captured) => Some(captured),
                None => defs,
            };
            lemma_first_member_fails(
                documents,
                depth,
                table,
                members,
                0,
                Seq::empty(),
                reference,
            );
        },
        _ => {},
    }
}

/// The error of a local reference that cannot be resolved: that of the
/// missing name where it has none, else that of the missing definition.
pub open spec fn first_failure(reference: Seq<char>) -> ErrorView {
    if local_name(reference) is None {
        ErrorView::LocalSchemaRefInvalidName { reference }
    } else {
        ErrorView::LocalSchemaRefNotFound { reference: pointer_of(reference) }
    }
}

/// `law_first_reference_fails` for the items of an array from `from` on.
proof fn lemma_first_item_fails(
    documents: Seq<(Seq<char>, JsonValue)>,
    depth: nat,
    defs: Option<JsonValue>,
    items: Seq<JsonValue>,
    from: nat,
    done: Seq<JsonValue>,
    reference: Seq<char>,
)
    requires
        item_meets_first(items, from, reference),
        is_local(reference),
        local_name(reference) is None || definition(
            table_at_first_item(documents, depth, defs, items, from),
            pointer_of(reference),
        ) is None,
    ensures
        resolve_items(documents, depth, defs, items, from, done).1 == Err::<JsonValue, StopView>(
            StopView::Failed(first_failure(reference)),
        ),
    decreases items, items.len() - from,
{
    if from < items.len() {
        let (table, outcome) = resolve_value(documents, depth, defs, items[from as int]);
        if is_unreferenced(items[from as int]) {
            law_unreferenced_schema_is_resolved(documents, depth, defs, items[from as int]);
            lemma_first_item_fails(
                documents,
                depth,
                table,
                items,
                from + 1,
                done.push(outcome->Ok_0),
                reference,
            );
        } else {
            law_first_reference_fails(documents, depth, defs, items[from as int], reference);
        }
    }
}

/// `law_first_reference_fails` for the members of an object from `from`
/// on.
proof fn lemma_first_member_fails(
    documents: Seq<(Seq<char>, JsonValue)>,
    depth: nat,
    defs: Option<JsonValue>,
    members: Seq<(Seq<char>, JsonValue)>,
    from: nat,
    done: Seq<(Seq<char>, JsonValue)>,
    reference: Seq<char>,
)
    requires
        member_meets_first(members, from, reference),
        is_local(reference),
        local_name(reference) is None || definition(
            table_at_first_member(documents, depth, defs, members, from),
            pointer_of(reference),
        ) is None,
    ensures
        resolve_members(documents, depth, defs, members, from, done).1 == Err::<
            JsonValue,
            StopView,
        >(StopView::Failed(first_failure(reference))),
    decreases members, members.len() - from,
{
    lemma_keys_differ();
    if from < members.len() {
        let key = members[from as int].0;
        let value = members[from as int].1;
        if key == DEFS@ {
            lemma_first_member_fails(documents, depth, defs, members, from + 1, done, reference);
        } else if key == REF@ && value is String {
        } else {
            let (table, outcome) = resolve_value(documents, depth, defs, value);
            if is_unreferenced(value) {
                law_unreferenced_schema_is_resolved(documents, depth, defs, value);
                lemma_first_member_fails(
                    documents,
                    depth,
                    table,
                    members,
                    from + 1,
                    with_member(done, key, outcome->Ok_0),
                    reference,
                );
            } else {
                law_first_reference_fails(documents, depth, defs, value, reference);
            }
        }
    }
}

/// The resolution of a document that meets no reference ends in a schema.
pub proof fn law_unreferenced_schema_is_resolved(
    documents: Seq<(Seq<char>, JsonValue)>,
    depth: nat,
    defs: Option<JsonValue>,
    value: JsonValue,
)
    requires
        is_unreferenced(value),
    ensures
        resolve_value(documents, depth, defs, value).1 is Ok,
    decreases value, 0nat,
{
    match value {
        JsonValue::Array(items) => {
            lemma_unreferenced_items_are_resolved(documents, depth, defs, items, 0, Seq::empty());
        },
        JsonValue::Object(members) => {
            let table = match member(members, DEFS@) {
                Some(captured) => Some(captured),
                None => defs,
            };
            lemma_unreferenced_members_are_resolved(
                documents,
                depth,
                table,
                members,
                0,
                Seq::empty(),
            );
        },
        _ => {},
    }
}

/// `law_unreferenced_schema_is_resolved` for the items of an array from `from`
/// on.
proof fn lemma_unreferenced_items_are_resolved(
    documents: Seq<(Seq<char>, JsonValue)>,
    depth: nat,
    defs: Option<JsonValue>,
    items: Seq<JsonValue>,
    from: nat,
    done: Seq<JsonValue>,
)
    requires
        is_unreferenced(JsonValue::Array(items)),
    ensures
        resolve_items(documents, depth, defs, items, from, done).1 is Ok,
    decreases items, items.len() - from,
{
    if from < items.len() {
        assert(JsonValue::Array(items)->Array_0 == items);
        let (table, outcome) = resolve_value(documents, depth, defs, items[from as int]);
        law_unreferenced_schema_is_resolved(documents, depth, defs, items[from as int]);
        lemma_unreferenced_items_are_resolved(
            documents,
            depth,
            table,
            items,
            from + 1,
            done.push(outcome->Ok_0),
        );
    }
}

/// `law_unreferenced_schema_is_resolved` for the members of an object from
/// `from` on.
proof fn lemma_unreferenced_members_are_resolved(
    documents: Seq<(Seq<char>, JsonValue)>,
    depth: nat,
    defs: Option<JsonValue>,
    members: Seq<(Seq<char>, JsonValue)>,
    from: nat,
    done: Seq<(Seq<char>, JsonValue)>,
)
    requires
        is_unreferenced(JsonValue::Object(members)),
    ensures
        resolve_members(documents, depth, defs, members, from, done).1 is Ok,
    decreases members, members.len() - from,
{
    if from < members.len() {
        assert(JsonValue::Object(members)->Object_0 == members);
        let key = members[from as int].0;
        let value = members[from as int].1;
        assert(is_unreferenced_member(members[from as int]));
        if key == DEFS@ {
            lemma_unreferenced_members_are_resolved(
                documents,
                depth,
                defs,
                members,
                from + 1,
                done,
            );
        } else {
            let (table, outcome) = resolve_value(documents, depth, defs, value);
            law_unreferenced_schema_is_resolved(documents, depth, defs, value);
            lemma_unreferenced_members_are_resolved(
                documents,
                depth,
                table,
                members,
                from + 1,
                with_member(done, key, outcome->Ok_0),
            );
        }
    }
}

/// Whether what a pointer finds in a table is a part of the table, as far
/// as references go: in a well-referenced table it finds nothing but
/// well-referenced values.
pub open spec fn lookups_hand_out_parts() -> bool {
    forall|table: JsonValue, pointer: Seq<char>|
        is_well_referenced(table) ==> (#[trigger] pointer_target(table, pointer) matches Some(
            found,
        ) ==> is_well_referenced(found))
}

/// A resolved schema holds no reference and no definitions. Where the
/// schema, the documents and the definitions in force are well referenced,
/// and lookups hand out parts of their tables, the schema that a resolution
/// ends in has neither the key `$ref` nor the key `$defs` in any of its
/// objects, and the definitions that are left in force are well referenced.
pub proof fn law_resolved_schema_is_plain(
    documents: Seq<(Seq<char>, JsonValue)>,
    depth: nat,
    defs: Option<JsonValue>,
    value: JsonValue,
)
    requires
        lookups_hand_out_parts(),
        are_well_referenced(documents, defs),
        is_well_referenced(value),
    ensures
        resolve_value(documents, depth, defs, value).1 matches Ok(resolved) ==> is_plain(resolved),
        are_well_referenced(documents, resolve_value(documents, depth, defs, value).0),
    decreases depth, value, 0nat,
{
    match value {
        JsonValue::Array(items) => {
            assert(is_plain(JsonValue::Array(Seq::empty())));
            lemma_resolved_items_are_plain(documents, depth, defs, items, 0, Seq::empty());
        },
        JsonValue::Object(members) => {
            let table = match member(members, DEFS@) {
                Some(captured) => Some(captured),
                None => defs,
            };
            lemma_member_well_referenced(members, DEFS@);
            assert(is_plain(JsonValue::Object(Seq::empty())));
            lemma_resolved_members_are_plain(
                documents,
                depth,
                table,
                members,
                0,
                Seq::empty(),
            );
        },
        _ => {},
    }
}

/// `law_resolved_schema_is_plain` for the items of an array from `from` on.
proof fn lemma_resolved_items_are_plain(
    documents: Seq<(Seq<char>, JsonValue)>,
    depth: nat,
    defs: Option<JsonValue>,
    items: Seq<JsonValue>,
    from: nat,
    done: Seq<JsonValue>,
)
    requires
        lookups_hand_out_parts(),
        are_well_referenced(documents, defs),
        is_well_referenced(JsonValue::Array(items)),
        is_plain(JsonValue::Array(done)),
    ensures
        resolve_items(documents, depth, defs, items, from, done).1 matches Ok(resolved)
            ==> is_plain(resolved),
        are_well_referenced(
            documents,
            resolve_items(documents, depth, defs, items, from, done).0,
        ),
    decreases depth, items, items.len() - from,
{
    if from < items.len() {
        assert(JsonValue::Array(items)->Array_0 == items);
        let (table, outcome) = resolve_value(documents, depth, defs, items[from as int]);
        law_resolved_schema_is_plain(documents, depth, defs, items[from as int]);
        match outcome {
            Ok(item) => {
                let next = done.push(item);
                assert(JsonValue::Array(done)->Array_0 == done);
                assert(JsonValue::Array(next)->Array_0 == next);
                assert forall|i: int| #![trigger next[i]] 0 <= i < next.len() implies is_plain(
                    next[i],
                ) by {
                    if i < done.len() {
                        assert(next[i] == done[i]);
                    }
                }
                lemma_resolved_items_are_plain(documents, depth, table, items, from + 1, next);
            },
            Err(_) => {},
        }
    }
}

/// `law_resolved_schema_is_plain` for the members of an object from `from`
/// on.
proof fn lemma_resolved_members_are_plain(
    documents: Seq<(Seq<char>, JsonValue)>,
    depth: nat,
    defs: Option<JsonValue>,
    members: Seq<(Seq<char>, JsonValue)>,
    from: nat,
    done: Seq<(Seq<char>, JsonValue)>,
)
    requires
        lookups_hand_out_parts(),
        are_well_referenced(documents, defs),
        is_well_referenced(JsonValue::Object(members)),
        is_plain(JsonValue::Object(done)),
    ensures
        resolve_members(documents, depth, defs, members, from, done).1 matches Ok(resolved)
            ==> is_plain(resolved),
        are_well_referenced(
            documents,
            resolve_members(documents, depth, defs, members, from, done).0,
        ),
    decreases depth, members, members.len() - from,
{
    if from < members.len() {
        assert(JsonValue::Object(members)->Object_0 == members);
        let key = members[from as int].0;
        let value = members[from as int].1;
        assert(is_well_referenced(value));
        if key == DEFS@ {
            lemma_resolved_members_are_plain(documents, depth, defs, members, from + 1, done);
        } else if key == REF@ && value is String {
            let reference = value->String_0;
            if is_local(reference) && local_name(reference) is None {
            } else {
                lemma_member_well_referenced(documents, reference);
                match referent(documents, defs, reference) {
                    Err(_) => {},
                    Ok(target) => {
                        if depth > 0 {
                            let (table, outcome) = resolve_value(
                                documents,
                                (depth - 1) as nat,
                                defs,
                                target,
                            );
                            law_resolved_schema_is_plain(
                                documents,
                                (depth - 1) as nat,
                                defs,
                                target,
                            );
                            if is_local(reference) {
                                match outcome {
                                    Ok(resolved) => {
                                        let name = local_name(reference)->Some_0;
                                        lemma_with_member_plain(done, name, resolved);
                                        lemma_resolved_members_are_plain(
                                            documents,
                                            depth,
                                            table,
                                            members,
                                            from + 1,
                                            with_member(done, name, resolved),
                                        );
                                    },
                                    Err(_) => {},
                                }
                            }
                        }
                    },
                }
            }
        } else {
            let (table, outcome) = resolve_value(documents, depth, defs, value);
            law_resolved_schema_is_plain(documents, depth, defs, value);
            match outcome {
                Ok(resolved) => {
                    lemma_with_member_plain(done, key, resolved);
                    lemma_resolved_members_are_plain(
                        documents,
                        depth,
                        table,
                        members,
                        from + 1,
                        with_member(done, key, resolved),
                    );
                },
                Err(_) => {},
            }
        }
    }
}

/// The bound on the depth of references only cuts a resolution short. A
/// resolution that ends within `depth`, in a schema or in any other stop
/// than `TooDeep`, ends in the same way within every greater depth.
pub proof fn law_depth_only_cuts(
    documents: Seq<(Seq<char>, JsonValue)>,
    depth: nat,
    more: nat,
    defs: Option<JsonValue>,
    value: JsonValue,
)
    requires
        depth <= more,
        resolve_value(documents, depth, defs, value).1 != Err::<JsonValue, StopView>(
            StopView::TooDeep,
        ),
    ensures
        resolve_value(documents, more, defs, value) == resolve_value(
            documents,
            depth,
            defs,
            value,
        ),
    decreases depth, value, 0nat,
{
    match value {
        JsonValue::Array(items) => {
            lemma_depth_only_cuts_items(documents, depth, more, defs, items, 0, Seq::empty());
        },
        JsonValue::Object(members) => {
            let table = match member(members, DEFS@) {
                Some(captured) => Some(captured),
                None => defs,
            };
            lemma_depth_only_cuts_members(
                documents,
                depth,
                more,
                table,
                members,
                0,
                Seq::empty(),
            );
        },
        _ => {},
    }
}

/// `law_depth_only_cuts` for the items of an array from `from` on.
proof fn lemma_depth_only_cuts_items(
    documents: Seq<(Seq<char>, JsonValue)>,
    depth: nat,
    more: nat,
    defs: Option<JsonValue>,
    items: Seq<JsonValue>,
    from: nat,
    done: Seq<JsonValue>,
)
    requires
        depth <= more,
        resolve_items(documents, depth, defs, items, from, done).1 != Err::<
            JsonValue,
            StopView,
        >(StopView::TooDeep),
    ensures
        resolve_items(documents, more, defs, items, from, done) == resolve_items(
            documents,
            depth,
            defs,
            items,
            from,
            done,
        ),
    decreases depth, items, items.len() - from,
{
    if from < items.len() {
        let (table, outcome) = resolve_value(documents, depth, defs, items[from as int]);
        law_depth_only_cuts(documents, depth, more, defs, items[from as int]);
        match outcome {
            Ok(item) => {
                lemma_depth_only_cuts_items(
                    documents,
                    depth,
                    more,
                    table,
                    items,
                    from + 1,
                    done.push(item),
                );
            },
            Err(_) => {},
        }
    }
}

/// `law_depth_only_cuts` for the members of an object from `from` on.
proof fn lemma_depth_only_cuts_members(
    documents: Seq<(Seq<char>, JsonValue)>,
    depth: nat,
    more: nat,
    defs: Option<JsonValue>,
    members: Seq<(Seq<char>, JsonValue)>,
    from: nat,
    done: Seq<(Seq<char>, JsonValue)>,
)
    requires
        depth <= more,
        resolve_members(documents, depth, defs, members, from, done).1 != Err::<
            JsonValue,
            StopView,
        >(StopView::TooDeep),
    ensures
        resolve_members(documents, more, defs, members, from, done) == resolve_members(
            documents,
            depth,
            defs,
            members,
            from,
            done,
        ),
    decreases depth, members, members.len() - from,
{
    if from < members.len() {
        let key = members[from as int].0;
        let value = members[from as int].1;
        if key == DEFS@ {
            lemma_depth_only_cuts_members(documents, depth, more, defs, members, from + 1, done);
        } else if key == REF@ && value is String {
            let reference = value->String_0;
            if is_local(reference) && local_name(reference) is None {
            } else {
                match referent(documents, defs, reference) {
                    Err(_) => {},
                    Ok(target) => {
                        let (table, outcome) = resolve_value(
                            documents,
                            (depth - 1) as nat,
                            defs,
                            target,
                        );
                        law_depth_only_cuts(
                            documents,
                            (depth - 1) as nat,
                            (more - 1) as nat,
                            defs,
                            target,
                        );
                        if is_local(reference) {
                            match outcome {
                                Ok(resolved) => {
                                    lemma_depth_only_cuts_members(
                                        documents,
                                        depth,
                                        more,
                                        table,
                                        members,
                                        from + 1,
                                        with_member(done, local_name(reference)->Some_0, resolved),
                                    );
                                },
                                Err(_) => {},
                            }
                        }
                    },
                }
            }
        } else {
            let (table, outcome) = resolve_value(documents, depth, defs, value);
            law_depth_only_cuts(documents, depth, more, defs, value);
            match outcome {
                Ok(resolved) => {
                    lemma_depth_only_cuts_members(
                        documents,
                        depth,
                        more,
                        table,
                        members,
                        from + 1,
                        with_member(done, key, resolved),
                    );
                },
                Err(_) => {},
            }
        }
    }
}

/// How deep references may nest in a resolver that was not told otherwise:
/// as deep as the machine can count.
pub const DEFAULT_DEPTH: usize = usize::MAX;

/// The state of one resolution: the documents that were fetched for it, the
/// definitions in force, and how deep references may nest.
#[derive(Debug)]
pub struct Resolver {
    pub documents: Vec<(String, Json)>,
    pub defs: Option<Json>,
    pub depth: usize,
}

pub struct ResolverView {
    pub documents: Seq<(Seq<char>, JsonValue)>,
    pub defs: Option<JsonValue>,
    pub depth: nat,
}

/// An optional document by its view.
pub open spec fn option_view(document: Option<Json>) -> Option<JsonValue> {
    match document {
        Some(json) => Some(json@),
        None => None,
    }
}

/// The outcome of a resolution by its view.
pub open spec fn outcome_view(outcome: Result<Json, Stop>) -> Result<JsonValue, StopView> {
    match outcome {
        Ok(json) => Ok(json@),
        Err(stop) => Err(stop@),
    }
}

impl ResolverView {
    /// The documents and the definitions are well formed.
    pub open spec fn wf(self) -> bool {
        &&& forall|i: int|
            #![trigger self.documents[i]]
            0 <= i < self.documents.len() ==> self.documents[i].1.wf()
        &&& self.defs matches Some(table) ==> table.wf()
    }
}

impl ResolverView {
    /// The documents and the definitions are well referenced.
    pub open spec fn well_referenced(self) -> bool {
        are_well_referenced(self.documents, self.defs)
    }
}

impl View for Resolver {
    type V = ResolverView;

    open spec fn view(&self) -> ResolverView {
        ResolverView {
            documents: members_view(self.documents@),
            defs: option_view(self.defs),
            depth: self.depth as nat,
        }
    }
}

/// What a reference stands for, once it is known whether it is the
/// absolute URL of a document, which document was fetched for it and which
/// definition its pointer leads to.
pub fn select_referent(
    reference: &str,
    pointer: &str,
    absolute: bool,
    document: Option<Json>,
    found: Option<Json>,
) -> (referent: Result<Json, Stop>)
    ensures
        outcome_view(referent) == (if absolute {
            match document {
                Some(json) => Ok::<JsonValue, StopView>(json@),
                None => Err(StopView::NeedsDocument(reference@)),
            }
        } else {
            match found {
                Some(json) => Ok(json@),
                None => Err(
                    StopView::Failed(ErrorView::LocalSchemaRefNotFound { reference: pointer@ }),
                ),
            }
        }),
{
    if absolute {
        match document {
            Some(json) => Ok(json),
            None => Err(Stop::NeedsDocument(reference.to_owned())),
        }
    } else {
        match found {
            Some(json) => Ok(json),
            None => Err(
                Stop::Failed(Error::LocalSchemaRefNotFound { reference: pointer.to_owned() }),
            ),
        }
    }
}

/// The pointer by which `reference` is looked up among the definitions.
pub fn pointer_in(reference: &str) -> (pointer: &str)
    ensures
        pointer@ == pointer_of(reference@),
{
    if starts_with(reference, LOCAL_PREFIX) {
        let skipped = LOCAL_PREFIX.unicode_len();
        let length = reference.unicode_len();
        reference.substring_char(skipped, length)
    } else {
        reference
    }
}

/// The name under which the referent of a local reference is inserted.
pub fn name_in(reference: &str) -> (name: Option<String>)
    ensures
        match name {
            Some(text) => local_name(reference@) == Some(text@),
            None => local_name(reference@) is None,
        },
{
    let pointer = pointer_in(reference);
    match find_last_slash(pointer, 0) {
        Some(at) => {
            proof {
                lemma_last_slash(pointer@, 0);
            }
            let length = pointer.unicode_len();
            Some(pointer.substring_char(at + 1, length).to_owned())
        },
        None => None,
    }
}

/// Whether `value` is free of references.
pub fn reference_free(value: &Json) -> (free: bool)
    ensures
        free == is_reference_free(value@),
    decreases value,
{
    match value {
        Json::Array(items) => {
            proof {
                lemma_view_parts(*value);
            }
            let mut i: usize = 0;
            while i < items.len()
                invariant
                    *value == Json::Array(*items),
                    value@ == JsonValue::Array(items_view(items@)),
                    i <= items.len(),
                    forall|k: int| 0 <= k < i ==> is_reference_free(#[trigger] items_view(items@)[k]),
                decreases items.len() - i,
            {
                assert(decreases_to!(*value => value->Array_0));
                assert(items_view(items@)[i as int] == items@[i as int]@);
                if !reference_free(&items[i]) {
                    assert(value@->Array_0[i as int] == items@[i as int]@);
                    return false;
                }
                i += 1;
            }
            assert(value@->Array_0 == items_view(items@));
            true
        },
        Json::Object(members) => {
            proof {
                lemma_view_parts(*value);
            }
            let ref_key = String::from_str(REF);
            let mut i: usize = 0;
            while i < members.len()
                invariant
                    *value == Json::Object(*members),
                    value@ == JsonValue::Object(members_view(members@)),
                    ref_key@ == REF@,
                    i <= members.len(),
                    forall|k: int|
                        #![trigger members_view(members@)[k]]
                        0 <= k < i ==> {
                            &&& !(members_view(members@)[k].0 == REF@ && members_view(
                                members@,
                            )[k].1 is String)
                            &&& is_reference_free(members_view(members@)[k].1)
                        },
                decreases members.len() - i,
            {
                assert(decreases_to!(*value => value->Object_0));
                assert(decreases_to!(members@[i as int] => members@[i as int].1));
                assert(members_view(members@)[i as int] == (
                    members@[i as int].0@,
                    members@[i as int].1@,
                ));
                assert(value@->Object_0[i as int] == members_view(members@)[i as int]);
                let holds_text = match &members[i].1 {
                    Json::String(_) => true,
                    _ => false,
                };
                if members[i].0 == ref_key && holds_text {
                    return false;
                }
                if !reference_free(&members[i].1) {
                    return false;
                }
                i += 1;
            }
            assert(value@->Object_0 == members_view(members@));
            true
        },
        _ => true,
    }
}

impl Resolver {
    /// A resolver that was given no document and has seen no definitions.
    pub fn new() -> (resolver: Resolver)
        ensures
            resolver@ == (ResolverView {
                documents: Seq::empty(),
                defs: None,
                depth: DEFAULT_DEPTH as nat,
            }),
    {
        let resolver = Resolver { documents: Vec::new(), defs: None, depth: DEFAULT_DEPTH };
        assert(resolver@.documents =~= Seq::empty());
        resolver
    }

    /// Hands the resolver the document that was fetched from `url`.
    pub fn add_document(&mut self, url: String, document: Json)
        ensures
            final(self)@ == (ResolverView {
                documents: with_member(old(self)@.documents, url@, document@),
                ..old(self)@
            }),
            old(self)@.wf() && document@.wf() ==> final(self)@.wf(),
            old(self)@.well_referenced() && is_well_referenced(document@) ==> final(self)@.well_referenced(),
    {
        proof {
            lemma_with_member_parts(self@.documents, url@, document@);
        }
        set_member(&mut self.documents, url, document);
    }

    /// Hands the resolver the text that was fetched from `url`. A text that
    /// is JSON is added as the document of `url`; any other is the failure
    /// of the request, and the resolver stays as it was.
    pub fn add_fetched(&mut self, url: String, text: &str) -> (added: Result<(), Error>)
        ensures
            match json_document(text@) {
                Ok(document) => added is Ok && final(self)@ == (ResolverView {
                    documents: with_member(old(self)@.documents, url@, document),
                    ..old(self)@
                }),
                Err(message) => added matches Err(error) && error@ == ErrorView::RequestError(
                    message,
                ) && final(self)@ == old(self)@,
            },
            old(self)@.wf() ==> final(self)@.wf(),
    {
        match parse_json(text) {
            Ok(document) => {
                self.add_document(url, document);
                Ok(())
            },
            Err(message) => Err(Error::RequestError(message)),
        }
    }

    /// What `reference` stands for: the definition under the pointer of a
    /// local reference, the document of an absolute URL, else the
    /// definition that the reference itself points to.
    pub fn get(&self, reference: &str) -> (found: Result<Json, Stop>)
        ensures
            outcome_view(found) == referent(self@.documents, self@.defs, reference@),
            self@.wf() ==> (found matches Ok(json) ==> json@.wf()),
            self@.well_referenced() ==> (found matches Ok(json) ==> is_well_referenced(json@)),
    {
        let pointer = pointer_in(reference);
        if !starts_with(reference, LOCAL_PREFIX) && parses_as_url(reference) {
            let document = match find_member(&self.documents, reference) {
                Some(json) => Some(json.clone()),
                None => None,
            };
            proof {
                if self@.wf() {
                    lemma_member_wf(self@.documents, reference@);
                }
                if self@.well_referenced() {
                    lemma_member_well_referenced(self@.documents, reference@);
                }
            }
            select_referent(reference, pointer, true, document, None)
        } else {
            let found = self.get_def(pointer);
            select_referent(reference, pointer, false, None, found)
        }
    }

    /// Puts the definitions `defs` in force.
    pub fn set_defs(&mut self, defs: Json)
        ensures
            final(self)@ == (ResolverView { defs: Some(defs@), ..old(self)@ }),
            final(self).documents == old(self).documents,
            final(self).depth == old(self).depth,
    {
        self.defs = Some(defs);
    }

    /// The definition under the pointer `key`.
    pub fn get_def(&self, key: &str) -> (found: Option<Json>)
        ensures
            option_view(found) == definition(self@.defs, key@),
            found matches Some(json) ==> json@.wf(),
            self@.well_referenced() ==> (found matches Some(json) ==> is_well_referenced(json@)),
    {
        match &self.defs {
            Some(table) => pointer_lookup(table, key),
            None => None,
        }
    }
}

/// Resolves `value` with at most `depth` references inside one another.
fn resolve_at(resolver: &mut Resolver, depth: usize, value: &Json) -> (outcome: Result<Json, Stop>)
    ensures
        final(resolver).documents == old(resolver).documents,
        final(resolver).depth == old(resolver).depth,
        (final(resolver)@.defs, outcome_view(outcome)) == resolve_value(
            old(resolver)@.documents,
            depth as nat,
            old(resolver)@.defs,
            value@,
        ),
        old(resolver)@.wf() && value@.wf() ==> final(resolver)@.wf() && (outcome matches Ok(json)
            ==> json@.wf()),
        old(resolver)@.well_referenced() && is_well_referenced(value@) ==> final(resolver)@.well_referenced() && (outcome matches Ok(json) ==> is_plain(json@)),
    decreases depth, value,
{
    let ghost sound = resolver@.wf() && value@.wf();
    let ghost referenced = resolver@.well_referenced() && is_well_referenced(value@);
    let ghost documents = resolver@.documents;
    let ghost target = resolve_value(documents, depth as nat, resolver@.defs, value@);
    match value {
        Json::Array(items) => {
            proof {
                lemma_view_parts(*value);
            }
            let ghost viewed = items_view(items@);
            let mut done: Vec<Json> = Vec::new();
            let mut i: usize = 0;
            assert(items_view(done@) =~= Seq::empty());
            while i < items.len()
                invariant
                    *value == Json::Array(*items),
                    i <= items.len(),
                    viewed == items_view(items@),
                    resolver.documents == old(resolver).documents,
                    resolver.depth == old(resolver).depth,
                    documents == resolver@.documents,
                    target == resolve_value(
                        old(resolver)@.documents,
                        depth as nat,
                        old(resolver)@.defs,
                        value@,
                    ),
                    target == resolve_items(
                        documents,
                        depth as nat,
                        resolver@.defs,
                        viewed,
                        i as nat,
                        items_view(done@),
                    ),
                    value@ == JsonValue::Array(viewed),
                    sound == (old(resolver)@.wf() && value@.wf()),
                    sound ==> resolver@.wf() && JsonValue::Array(items_view(done@)).wf(),
                    referenced == (old(resolver)@.well_referenced() && is_well_referenced(
                        value@,
                    )),
                    referenced ==> resolver@.well_referenced() && is_plain(
                        JsonValue::Array(items_view(done@)),
                    ),
                decreases items.len() - i,
            {
                let ghost before = items_view(done@);
                assert(JsonValue::Array(before)->Array_0 == before);
                match resolve_at(resolver, depth, &items[i]) {
                    Ok(item) => {
                        done.push(item);
                        assert(items_view(done@) =~= before.push(item@));
                    },
                    Err(stop) => {
                        return Err(stop);
                    },
                }
                i += 1;
            }
            let resolved = Json::Array(done);
            proof {
                lemma_view_parts(resolved);
            }
            Ok(resolved)
        },
        Json::Object(members) => {
            proof {
                lemma_view_parts(*value);
            }
            let ghost viewed = members_view(members@);
            match find_member(members, DEFS) {
                Some(captured) => {
                    proof {
                        if sound {
                            lemma_member_wf(viewed, DEFS@);
                        }
                        if referenced {
                            lemma_member_well_referenced(viewed, DEFS@);
                        }
                    }
                    resolver.set_defs(captured.clone());
                },
                None => {},
            }
            let defs_key = String::from_str(DEFS);
            let ref_key = String::from_str(REF);
            let mut done: Vec<(String, Json)> = Vec::new();
            let mut i: usize = 0;
            assert(members_view(done@) =~= Seq::empty());
            while i < members.len()
                invariant
                    *value == Json::Object(*members),
                    i <= members.len(),
                    viewed == members_view(members@),
                    defs_key@ == DEFS@,
                    ref_key@ == REF@,
                    resolver.documents == old(resolver).documents,
                    resolver.depth == old(resolver).depth,
                    documents == resolver@.documents,
                    target == resolve_value(
                        old(resolver)@.documents,
                        depth as nat,
                        old(resolver)@.defs,
                        value@,
                    ),
                    target == resolve_members(
                        documents,
                        depth as nat,
                        resolver@.defs,
                        viewed,
                        i as nat,
                        members_view(done@),
                    ),
                    value@ == JsonValue::Object(viewed),
                    sound == (old(resolver)@.wf() && value@.wf()),
                    sound ==> resolver@.wf() && JsonValue::Object(members_view(done@)).wf(),
                    referenced == (old(resolver)@.well_referenced() && is_well_referenced(
                        value@,
                    )),
                    referenced ==> resolver@.well_referenced() && is_plain(
                        JsonValue::Object(members_view(done@)),
                    ),
                decreases members.len() - i,
            {
                let ghost before = members_view(done@);
                let key = &members[i].0;
                let item = &members[i].1;
                if *key != defs_key {
                    let reference: Option<&String> = if *key == ref_key {
                        match item {
                            Json::String(text) => Some(text),
                            _ => None,
                        }
                    } else {
                        None
                    };
                    match reference {
                        Some(text) => {
                            let local = starts_with(text.as_str(), LOCAL_PREFIX);
                            let name = name_in(text.as_str());
                            if local && name.is_none() {
                                return Err(
                                    Stop::Failed(
                                        Error::LocalSchemaRefInvalidName {
                                            reference: text.clone(),
                                        },
                                    ),
                                );
                            }
                            let referent = match resolver.get(text.as_str()) {
                                Ok(found) => found,
                                Err(stop) => {
                                    return Err(stop);
                                },
                            };
                            if depth == 0 {
                                return Err(Stop::TooDeep);
                            }
                            let outcome = resolve_at(resolver, depth - 1, &referent);
                            if local {
                                match outcome {
                                    Ok(resolved) => {
                                        proof {
                                            if sound {
                                                lemma_with_member_wf(
                                                    before,
                                                    name.unwrap()@,
                                                    resolved@,
                                                );
                                            }
                                            if referenced {
                                                lemma_with_member_plain(
                                                    before,
                                                    name.unwrap()@,
                                                    resolved@,
                                                );
                                            }
                                        }
                                        set_member(&mut done, name.unwrap(), resolved);
                                    },
                                    Err(stop) => {
                                        return Err(stop);
                                    },
                                }
                            } else {
                                return outcome;
                            }
                        },
                        None => {
                            match resolve_at(resolver, depth, item) {
                                Ok(resolved) => {
                                    proof {
                                        if sound {
                                            lemma_with_member_wf(before, key@, resolved@);
                                        }
                                        if referenced {
                                            lemma_with_member_plain(before, key@, resolved@);
                                        }
                                    }
                                    set_member(&mut done, key.clone(), resolved);
                                },
                                Err(stop) => {
                                    return Err(stop);
                                },
                            }
                        },
                    }
                }
                i += 1;
            }
            let resolved = Json::Object(done);
            proof {
                lemma_view_parts(resolved);
            }
            Ok(resolved)
        },
        _ => Ok(value.clone()),
    }
}

/// Resolves a schema: the result holds, in place of each reference, what
/// the reference stands for. The resolver keeps the definitions that were
/// in force when the resolution ended.
pub fn resolve(resolver: &mut Resolver, schema: &Json) -> (outcome: Result<Json, Stop>)
    ensures
        final(resolver).documents == old(resolver).documents,
        final(resolver).depth == old(resolver).depth,
        (final(resolver)@.defs, outcome_view(outcome)) == resolve_value(
            old(resolver)@.documents,
            old(resolver)@.depth,
            old(resolver)@.defs,
            schema@,
        ),
        old(resolver)@.wf() && schema@.wf() ==> final(resolver)@.wf() && (outcome matches Ok(json)
            ==> json@.wf()),
        old(resolver)@.well_referenced() && is_well_referenced(schema@) ==> final(resolver)@.well_referenced() && (outcome matches Ok(json) ==> is_plain(json@)),
{
    let depth = resolver.depth;
    resolve_at(resolver, depth, schema)
}

} // verus!
