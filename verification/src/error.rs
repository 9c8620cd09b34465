//! The errors of the library, in words and as the HTTP interface reports
//! them.

use vstd::prelude::*;
use vstd::string::*;

verus! {

/// What can go wrong between fetching a schema and validating a document.
#[derive(Debug, PartialEq)]
pub enum Error {
    /// The payload is not YAML; the parser's message.
    InvalidYaml(String),
    /// A document is not JSON; the parser's message.
    InvalidJson(String),
    /// The resolved schema was refused when compiled; the compiler's message.
    InvalidSchema(String),
    /// A schema or a referenced document could not be fetched.
    RequestError(String),
    /// A reference points at a definition that the schema does not have.
    LocalSchemaRefNotFound { reference: String },
    /// A local reference from which no name can be taken.
    LocalSchemaRefInvalidName { reference: String },
    /// A schema in which a reference is left: one that holds a string under
    /// `$ref`, or one whose references nest deeper than they are followed.
    SchemaRefUnresolved,
}

pub enum ErrorView {
    InvalidYaml(Seq<char>),
    InvalidJson(Seq<char>),
    InvalidSchema(Seq<char>),
    RequestError(Seq<char>),
    LocalSchemaRefNotFound { reference: Seq<char> },
    LocalSchemaRefInvalidName { reference: Seq<char> },
    SchemaRefUnresolved,
}

impl View for Error {
    type V = ErrorView;

    open spec fn view(&self) -> ErrorView {
        match self {
            Error::InvalidYaml(message) => ErrorView::InvalidYaml(message@),
            Error::InvalidJson(message) => ErrorView::InvalidJson(message@),
            Error::InvalidSchema(message) => ErrorView::InvalidSchema(message@),
            Error::RequestError(message) => ErrorView::RequestError(message@),
            Error::LocalSchemaRefNotFound { reference } => ErrorView::LocalSchemaRefNotFound {
                reference: reference@,
            },
            Error::LocalSchemaRefInvalidName { reference } => ErrorView::LocalSchemaRefInvalidName {
                reference: reference@,
            },
            Error::SchemaRefUnresolved => ErrorView::SchemaRefUnresolved,
        }
    }
}

impl ErrorView {
    /// The error in words.
    pub open spec fn message(self) -> Seq<char> {
        match self {
            ErrorView::InvalidYaml(message) => "invalid yaml: "@ + message,
            ErrorView::InvalidJson(message) => "invalid json: "@ + message,
            ErrorView::InvalidSchema(message) => "invalid JsonSchema: "@ + message,
            ErrorView::RequestError(message) => "request error: "@ + message,
            ErrorView::LocalSchemaRefNotFound { reference } => "local JsonSchema ref not found: "@
                + reference,
            ErrorView::LocalSchemaRefInvalidName { reference } =>
                "local JsonSchema with invalid name: "@ + reference,
            ErrorView::SchemaRefUnresolved => "JsonSchema with a ref left unresolved"@,
        }
    }

    /// The HTTP status that answers a request which ended in this error:
    /// 400 where the payload could not be read, 500 for everything else.
    pub open spec fn status(self) -> u16 {
        match self {
            ErrorView::InvalidYaml(_) => 400,
            ErrorView::InvalidJson(_) => 400,
            _ => 500,
        }
    }

    /// What is reported to the client: of a payload that could not be read
    /// and of a refused schema the bare message, else the error in words.
    pub open spec fn report(self) -> Seq<char> {
        match self {
            ErrorView::InvalidYaml(message) => message,
            ErrorView::InvalidJson(message) => message,
            ErrorView::InvalidSchema(message) => message,
            _ => self.message(),
        }
    }
}

/// `prefix` followed by `rest`.
fn prefixed(prefix: &str, rest: &String) -> (text: String)
    ensures
        text@ == prefix@ + rest@,
{
    let mut text = String::from_str(prefix);
    text.append(rest.as_str());
    text
}

impl Error {
    /// The error in words.
    pub fn message(&self) -> (text: String)
        ensures
            text@ == self@.message(),
    {
        match self {
            Error::InvalidYaml(message) => prefixed("invalid yaml: ", message),
            Error::InvalidJson(message) => prefixed("invalid json: ", message),
            Error::InvalidSchema(message) => prefixed("invalid JsonSchema: ", message),
            Error::RequestError(message) => prefixed("request error: ", message),
            Error::LocalSchemaRefNotFound { reference } => prefixed(
                "local JsonSchema ref not found: ",
                reference,
            ),
            Error::LocalSchemaRefInvalidName { reference } => prefixed(
                "local JsonSchema with invalid name: ",
                reference,
            ),
            Error::SchemaRefUnresolved => String::from_str("JsonSchema with a ref left unresolved"),
        }
    }
}

/// An error as the HTTP interface reports it.
#[derive(Debug, PartialEq)]
pub struct ApiError {
    pub status: u16,
    pub error: String,
}

impl ApiError {
    /// The status and the text that answer a request which ended in `err`.
    pub fn from(err: Error) -> (api_error: ApiError)
        ensures
            api_error.status == err@.status(),
            api_error.error@ == err@.report(),
    {
        match err {
            Error::InvalidYaml(message) => ApiError { status: 400, error: message },
            Error::InvalidJson(message) => ApiError { status: 400, error: message },
            Error::InvalidSchema(message) => ApiError { status: 500, error: message },
            other => {
                let error = other.message();
                ApiError { status: 500, error }
            },
        }
    }
}

} // verus!
