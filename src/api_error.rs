//! The error envelope that every endpoint answers with.
use vstd::prelude::*;

use crate::error::{AuthError, CadenceError, DatabaseError, EntityError, InputError, ServerError};

verus! {

/// An error met while handling a request.
#[derive(Clone, Debug)]
pub struct APIResponseError {
    /// Structured error code and details.
    pub error: CadenceError,
    /// Human-readable message describing the overall error.
    pub message: String,
    /// Specific findings, such as field validation issues.
    pub details: Vec<APIResponseErrorDetail>,
}

/// A specific finding about an error, often tied to one request field.
#[derive(Clone, Debug)]
pub struct APIResponseErrorDetail {
    /// What is wrong.
    pub detailed_feedback: String,
    /// Where it is wrong, such as `body.name`.
    pub source: Option<String>,
}

/// A finding as feedback text and source text.
pub type DetailView = (Seq<char>, Option<Seq<char>>);

impl View for APIResponseErrorDetail {
    type V = DetailView;

    open spec fn view(&self) -> DetailView {
        (
            self.detailed_feedback@,
            match self.source {
                Some(s) => Some(s@),
                None => None,
            },
        )
    }
}

/// The views of a list of findings.
pub open spec fn details_view(d: Seq<APIResponseErrorDetail>) -> Seq<DetailView> {
    d.map_values(|x: APIResponseErrorDetail| x@)
}

/// A finding about `field` of the request body.
pub open spec fn body_finding(field: Seq<char>, feedback: Seq<char>) -> DetailView {
    (feedback, Some(seq!['b', 'o', 'd', 'y', '.'] + field))
}

impl APIResponseError {
    pub fn new(error: CadenceError, message: String, details: Vec<APIResponseErrorDetail>) -> (r:
        Self)
        ensures
            r.error == error,
            r.message == message,
            r.details == details,
    {
        APIResponseError { error, message, details }
    }

    /// An input error.
    pub fn input_error(kind: InputError, message: String, details: Vec<APIResponseErrorDetail>) -> (r:
        Self)
        ensures
            r.error == CadenceError::Input(kind),
            r.message == message,
            r.details == details,
    {
        Self::new(CadenceError::Input(kind), message, details)
    }

    /// An authentication or authorization error.
    pub fn auth_error(kind: AuthError, message: String, details: Vec<APIResponseErrorDetail>) -> (r:
        Self)
        ensures
            r.error == CadenceError::Auth(kind),
            r.message == message,
            r.details == details,
    {
        Self::new(CadenceError::Auth(kind), message, details)
    }

    /// An error of the business rules on entities.
    pub fn entity_error(kind: EntityError, message: String, details: Vec<APIResponseErrorDetail>) -> (r:
        Self)
        ensures
            r.error == CadenceError::Entity(kind),
            r.message == message,
            r.details == details,
    {
        Self::new(CadenceError::Entity(kind), message, details)
    }

    /// A database error.
    pub fn db_error(kind: DatabaseError, message: String, details: Vec<APIResponseErrorDetail>) -> (r:
        Self)
        ensures
            r.error == CadenceError::Database(kind),
            r.message == message,
            r.details == details,
    {
        Self::new(CadenceError::Database(kind), message, details)
    }

    /// A server-side error.
    pub fn server_error(kind: ServerError, message: String, details: Vec<APIResponseErrorDetail>) -> (r:
        Self)
        ensures
            r.error == CadenceError::ServerError(kind),
            r.message == message,
            r.details == details,
    {
        Self::new(CadenceError::ServerError(kind), message, details)
    }

    /// The entity `id` of type `entity_type` does not exist.
    pub fn not_found(entity_type: &str, id: &str) -> (r: Self)
        ensures
            r.error matches CadenceError::Entity(EntityError::NotFound(s)) && s@ == entity_type@
                + " with ID "@ + id@ + " not found"@,
            r.message@ == entity_type@ + " not found"@,
            r.details@.len() == 0,
    {
        let mut internal = String::from_str(entity_type);
        internal.append(" with ID ");
        internal.append(id);
        internal.append(" not found");
        let mut message = String::from_str(entity_type);
        message.append(" not found");
        Self::entity_error(EntityError::NotFound(internal), message, Vec::new())
    }

    /// The HTTP status code with which this error is answered.
    pub fn status_code(&self) -> (r: u16)
        ensures
            r == crate::error::status_of(self.error),
    {
        self.error.status_code()
    }
}

/// The text `prefix` followed by `field`.
fn prefixed(prefix: &str, field: &str) -> (r: String)
    ensures
        r@ == prefix@ + field@,
{
    let mut s = String::from_str(prefix);
    s.append(field);
    s
}

impl APIResponseErrorDetail {
    pub fn new(feedback: String, source: Option<String>) -> (r: Self)
        ensures
            r.detailed_feedback == feedback,
            r.source == source,
    {
        APIResponseErrorDetail { detailed_feedback: feedback, source }
    }

    /// A finding about `field` of the request body.
    pub fn body(field: &str, feedback: String) -> (r: Self)
        ensures
            r@ == body_finding(field@, feedback@),
    {
        let s = prefixed("body.", field);
        proof {
            reveal_strlit("body.");
            assert(s@ =~= seq!['b', 'o', 'd', 'y', '.'] + field@);
        }
        Self::new(feedback, Some(s))
    }

    /// A finding about query parameter `field`.
    pub fn query(field: &str, feedback: String) -> (r: Self)
        ensures
            r@ == (feedback@, Some(seq!['q', 'u', 'e', 'r', 'y', '.'] + field@)),
    {
        let s = prefixed("query.", field);
        proof {
            reveal_strlit("query.");
            assert(s@ =~= seq!['q', 'u', 'e', 'r', 'y', '.'] + field@);
        }
        Self::new(feedback, Some(s))
    }

    /// A finding about header `field`.
    pub fn header(field: &str, feedback: String) -> (r: Self)
        ensures
            r@ == (feedback@, Some(seq!['h', 'e', 'a', 'd', 'e', 'r', '.'] + field@)),
    {
        let s = prefixed("header.", field);
        proof {
            reveal_strlit("header.");
            assert(s@ =~= seq!['h', 'e', 'a', 'd', 'e', 'r', '.'] + field@);
        }
        Self::new(feedback, Some(s))
    }

    /// A finding about path parameter `field`.
    pub fn path(field: &str, feedback: String) -> (r: Self)
        ensures
            r@ == (feedback@, Some(seq!['p', 'a', 't', 'h', '.'] + field@)),
    {
        let s = prefixed("path.", field);
        proof {
            reveal_strlit("path.");
            assert(s@ =~= seq!['p', 'a', 't', 'h', '.'] + field@);
        }
        Self::new(feedback, Some(s))
    }
}

/// The part of a request that could not be read into its expected shape.
#[derive(Debug, Clone, Copy, PartialEq, Eq, Structural)]
pub enum RequestPart {
    Body,
    Query,
    Form,
    Path,
}

/// How a request part is named in error texts.
pub open spec fn part_name(part: RequestPart) -> Seq<char> {
    match part {
        RequestPart::Body => "body"@,
        RequestPart::Query => "query"@,
        RequestPart::Form => "form"@,
        RequestPart::Path => "path"@,
    }
}

/// The error for a request whose `part` could not be read; `message` is
/// the reader's own account of why.
pub fn rejected_input(part: RequestPart, message: String) -> (r: APIResponseError)
    ensures
        r.error matches CadenceError::Input(InputError::InvalidFormat(s)) && s@ == "invalid "@
            + part_name(part),
        r.message == message,
        r.details@.len() == 0,
{
    let mut kind = String::from_str("invalid ");
    match part {
        RequestPart::Body => kind.append("body"),
        RequestPart::Query => kind.append("query"),
        RequestPart::Form => kind.append("form"),
        RequestPart::Path => kind.append("path"),
    }
    APIResponseError::input_error(InputError::InvalidFormat(kind), message, Vec::new())
}

} // verus!
