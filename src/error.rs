//! The error kinds that the services report, by category.
use vstd::prelude::*;

verus! {

/// The category of an error, with its detail.
#[derive(Clone, Debug)]
pub enum CadenceError {
    Input(InputError),
    Auth(AuthError),
    Entity(EntityError),
    Database(DatabaseError),
    ServerError(ServerError),
}

/// Detailed input validation errors.
#[derive(Clone, Debug)]
pub enum InputError {
    MissingField(String),
    InvalidField(String),
    InvalidValue(String),
    InvalidType(String),
    InvalidFormat(String),
    InvalidLength(String),
    InvalidRange(String),
    InvalidPattern(String),
    InvalidEnumValue(String),
}

/// Detailed authentication/authorization errors.
#[derive(Clone, Debug)]
pub enum AuthError {
    Unauthorized(String),
    InvalidRequest(String),
    InvalidResponse(String),
    InvalidCredentials(String),
    InvalidToken(String),
    InvalidSignature(String),
    InvalidScope(String),
    InvalidGrant(String),
    InvalidClient(String),
    InvalidRedirectUri(String),
    InvalidAudience(String),
    InvalidIssuer(String),
    InvalidSubject(String),
    InternalServerError(String),
    ExpiredToken(String),
    MissingToken(String),
    MismatchToken(String),
}

/// Detailed business logic/entity related errors.
#[derive(Clone, Debug)]
pub enum EntityError {
    NotFound(String),
    AlreadyExists(String),
    InvalidState(String),
    InvalidTransition(String),
    InvalidAssociation(String),
    InvalidRelation(String),
    InvalidReference(String),
    InvalidForeignKey(String),
    InvalidUniqueConstraint(String),
    InvalidIntegrity(String),
    InvalidDataType(String),
}

#[derive(Clone, Debug)]
pub enum DatabaseError {
    ConnectionFailed(String),
    QueryFailed(String),
    TransactionFailed(String),
    Timeout(String),
    Deadlock(String),
    ConstraintViolation(String),
    InsertionError(String),
    UpdateError(String),
    DeletionError(String),
    RetrievalError(String),
    RecordNotFound(String),
}

#[derive(Clone, Debug)]
pub enum ServerError {
    InternalError(String),
    ServiceUnavailable(String),
    GatewayTimeout(String),
    BadRequest(String),
    EnviromentParseError(String),
}

/// The HTTP status that stands for an error.
pub open spec fn status_of(e: CadenceError) -> u16 {
    match e {
        CadenceError::Input(_) => 400,
        CadenceError::Auth(a) => match a {
            AuthError::InvalidScope(_) => 403,
            _ => 401,
        },
        CadenceError::Entity(k) => match k {
            EntityError::NotFound(_) => 404,
            EntityError::AlreadyExists(_) => 409,
            EntityError::InvalidState(_) => 400,
            EntityError::InvalidTransition(_) => 400,
            EntityError::InvalidUniqueConstraint(_) => 409,
            _ => 500,
        },
        CadenceError::Database(_) => 500,
        CadenceError::ServerError(_) => 500,
    }
}

impl CadenceError {
    /// The HTTP status code with which this error is answered.
    pub fn status_code(&self) -> (r: u16)
        ensures
            r == status_of(*self),
    {
        match self {
            CadenceError::Input(_) => 400,
            CadenceError::Auth(a) => match a {
                AuthError::InvalidScope(_) => 403,
                _ => 401,
            },
            CadenceError::Entity(k) => match k {
                EntityError::NotFound(_) => 404,
                EntityError::AlreadyExists(_) => 409,
                EntityError::InvalidState(_) => 400,
                EntityError::InvalidTransition(_) => 400,
                EntityError::InvalidUniqueConstraint(_) => 409,
                _ => 500,
            },
            CadenceError::Database(_) => 500,
            CadenceError::ServerError(_) => 500,
        }
    }
}

} // verus!
