//! The kinds of document that can be validated, and their schemas.

use vstd::prelude::*;
use vstd::string::*;
use crate::error::{Error, ErrorView};
use crate::json::{Json, JsonValue};
use crate::resolver::{
    is_plain, is_well_referenced, resolve, resolve_value, Resolver, Stop, StopView,
};
use crate::text::{is_lowered, lowered};
use crate::trusted::{json_document, parse_json};

verus! {

/// Where the schema of cloud-config documents is published.
pub const CLOUD_CONFIG_URL: &'static str =
    "https://raw.githubusercontent.com/canonical/cloud-init/main/cloudinit/config/schemas/versions.schema.cloud-config.json";

/// Where the schema of network-config documents is published.
pub const NETWORK_CONFIG_URL: &'static str =
    "https://raw.githubusercontent.com/canonical/cloud-init/main/cloudinit/config/schemas/schema-network-config-v1.json";

/// The kind of configuration document that a schema describes.
#[derive(Debug, Clone, Copy, PartialEq, Eq, Structural)]
pub enum ConfigKind {
    CloudConfig,
    NetworkConfig,
}

impl ConfigKind {
    /// Where the schema of this kind is published.
    pub open spec fn location(self) -> Seq<char> {
        match self {
            ConfigKind::CloudConfig => CLOUD_CONFIG_URL@,
            ConfigKind::NetworkConfig => NETWORK_CONFIG_URL@,
        }
    }

    /// The name by which this kind is selected.
    pub open spec fn name(self) -> Seq<char> {
        match self {
            ConfigKind::CloudConfig => "cloudconfig"@,
            ConfigKind::NetworkConfig => "networkconfig"@,
        }
    }

    /// The kind that a text selects: the one whose name the text is, read
    /// without regard to the case of its ASCII letters.
    pub open spec fn named(text: Seq<char>) -> Option<ConfigKind> {
        if lowered(text) == ConfigKind::CloudConfig.name() {
            Some(ConfigKind::CloudConfig)
        } else if lowered(text) == ConfigKind::NetworkConfig.name() {
            Some(ConfigKind::NetworkConfig)
        } else {
            None
        }
    }

    /// Where the schema of this kind is published.
    pub fn url(&self) -> (location: &'static str)
        ensures
            location@ == self.location(),
    {
        match self {
            ConfigKind::CloudConfig => CLOUD_CONFIG_URL,
            ConfigKind::NetworkConfig => NETWORK_CONFIG_URL,
        }
    }

    /// The kind that `s` selects, or a message that names `s`.
    pub fn from_str(s: &str) -> (kind: Result<ConfigKind, String>)
        ensures
            match kind {
                Ok(found) => ConfigKind::named(s@) == Some(found),
                Err(message) => ConfigKind::named(s@) is None && message@
                    == "Not a valid str variant: "@ + s@,
            },
    {
        if is_lowered(s, "cloudconfig") {
            Ok(ConfigKind::CloudConfig)
        } else if is_lowered(s, "networkconfig") {
            Ok(ConfigKind::NetworkConfig)
        } else {
            let mut message = String::from_str("Not a valid str variant: ");
            message.append(s);
            Err(message)
        }
    }

    /// The name by which this kind is selected.
    pub fn to_string(&self) -> (name: String)
        ensures
            name@ == self.name(),
    {
        match self {
            ConfigKind::CloudConfig => String::from_str("cloudconfig"),
            ConfigKind::NetworkConfig => String::from_str("networkconfig"),
        }
    }
}

/// A schema that is ready to be compiled, and the kind of document that it
/// describes.
#[derive(Debug)]
pub struct Schema(Json, ConfigKind);

impl Schema {
    /// The schema's document.
    pub closed spec fn document(&self) -> JsonValue {
        self.0@
    }

    /// The kind of document that the schema describes.
    pub closed spec fn kind(&self) -> ConfigKind {
        self.1
    }

    /// Reads the schema of `kind` from the text that its location served,
    /// and resolves it with the documents that the resolver was given. The
    /// resolution begins with no definitions in force, and those that it
    /// puts in force are dropped when it ends. A text that is not JSON is
    /// the failure of the request and gives `RequestError` with the
    /// parser's message; else the outcome is that of the resolution. A
    /// schema that was well referenced, as the documents are, is resolved
    /// into one without the keys `$ref` and `$defs`.
    pub fn get(kind: ConfigKind, text: &str, resolver: &mut Resolver) -> (schema: Result<
        Schema,
        Stop,
    >)
        ensures
            final(resolver).documents == old(resolver).documents,
            final(resolver).depth == old(resolver).depth,
            final(resolver).defs is None,
            old(resolver)@.wf() ==> (schema matches Ok(resolved) ==> resolved.document().wf()),
            old(resolver)@.well_referenced() && (json_document(text@) matches Ok(raw)
                && is_well_referenced(raw)) ==> (schema matches Ok(resolved) ==> is_plain(
                resolved.document(),
            )),
            match json_document(text@) {
                Err(message) => schema matches Err(stop) && stop@ == StopView::Failed(
                    ErrorView::RequestError(message),
                ),
                Ok(raw) => {
                    let resolution = resolve_value(
                        old(resolver)@.documents,
                        old(resolver)@.depth,
                        None,
                        raw,
                    ).1;
                    match schema {
                        Ok(resolved) => resolution == Ok::<JsonValue, StopView>(
                            resolved.document(),
                        ) && resolved.kind() == kind,
                        Err(stop) => resolution == Err::<JsonValue, StopView>(stop@),
                    }
                },
            },
    {
        match parse_json(text) {
            Ok(raw) => {
                resolver.defs = None;
                let outcome = resolve(resolver, &raw);
                resolver.defs = None;
                match outcome {
                    Ok(resolved) => Ok(Schema(resolved, kind)),
                    Err(stop) => Err(stop),
                }
            },
            Err(message) => {
                resolver.defs = None;
                Err(Stop::Failed(Error::RequestError(message)))
            },
        }
    }

    /// Reads a cloud-config schema from a snapshot that was resolved
    /// before: the document is taken as it is. A snapshot that is not JSON
    /// gives `InvalidJson`.
    pub fn from_vendored(snapshot: &str) -> (schema: Result<Schema, Error>)
        ensures
            schema matches Ok(vendored) ==> vendored.document().wf(),
            match json_document(snapshot@) {
                Ok(document) => schema matches Ok(vendored) && vendored.document() == document
                    && vendored.kind() == ConfigKind::CloudConfig,
                Err(message) => schema matches Err(error) && error@ == ErrorView::InvalidJson(
                    message,
                ),
            },
    {
        match parse_json(snapshot) {
            Ok(document) => Ok(Schema(document, ConfigKind::CloudConfig)),
            Err(message) => Err(Error::InvalidJson(message)),
        }
    }

    /// The schema's document.
    pub fn schema(&self) -> (document: &Json)
        ensures
            document@ == self.document(),
    {
        &self.0
    }
}

} // verus!
