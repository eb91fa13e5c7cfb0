//! The error answers of the identity service.
use vstd::prelude::*;

use crate::api_error::{body_finding, details_view, APIResponseError, APIResponseErrorDetail};
use crate::error::{AuthError, CadenceError, DatabaseError, EntityError, InputError, ServerError};

verus! {

/// The request did not pass validation; `details` says where.
pub fn invalid_input(input_format: &str, details: Vec<APIResponseErrorDetail>) -> (r:
    APIResponseError)
    ensures
        r.error matches CadenceError::Input(InputError::InvalidFormat(s)) && s@ == input_format@,
        r.message@ == "Input data validation failed."@,
        r.details == details,
{
    APIResponseError::new(
        CadenceError::Input(InputError::InvalidFormat(String::from_str(input_format))),
        String::from_str("Input data validation failed."),
        details,
    )
}

/// The password could not be hashed.
pub fn error_hashing_password() -> (r: APIResponseError)
    ensures
        r.error matches CadenceError::ServerError(ServerError::InternalError(s)) && s@
            == "Password hashing failed"@,
        r.message@ == "Failed to hash password."@,
        details_view(r.details@) == seq![body_finding("password"@, "Password hashing failed."@)],
{
    let detail = APIResponseErrorDetail::body(
        "password",
        String::from_str("Password hashing failed."),
    );
    let r = APIResponseError::new(
        CadenceError::ServerError(ServerError::InternalError(String::from_str("Password hashing failed"))),
        String::from_str("Failed to hash password."),
        vec![detail],
    );
    proof {
        assert(details_view(r.details@) =~= seq![body_finding("password"@, "Password hashing failed."@)]);
    }
    r
}

/// No record of `entity` was found.
pub fn not_found_entity(entity: &str) -> (r: APIResponseError)
    ensures
        r.error matches CadenceError::Database(DatabaseError::RecordNotFound(s)) && s@ == entity@
            + " not found"@,
        r.message@ == entity@ + " not found"@,
        r.details@.len() == 0,
{
    let mut internal = String::from_str(entity);
    internal.append(" not found");
    let mut message = String::from_str(entity);
    message.append(" not found");
    APIResponseError::new(
        CadenceError::Database(DatabaseError::RecordNotFound(internal)),
        message,
        Vec::new(),
    )
}

/// The account could not be put through `action`.
pub fn failed_to_x_account(action: &str) -> (r: APIResponseError)
    ensures
        r.error matches CadenceError::ServerError(ServerError::InternalError(s)) && s@ == "Failed to "@
            + action@ + " account"@,
        r.message@ == "Failed to "@ + action@ + " account due to an internal error."@,
        r.details@.len() == 0,
{
    let mut internal = String::from_str("Failed to ");
    internal.append(action);
    internal.append(" account");
    let mut message = String::from_str("Failed to ");
    message.append(action);
    message.append(" account due to an internal error.");
    APIResponseError::new(
        CadenceError::ServerError(ServerError::InternalError(internal)),
        message,
        Vec::new(),
    )
}

/// The account that the token was issued for is not the one asked about.
pub fn delegated_account_dont_match() -> (r: APIResponseError)
    ensures
        r.error matches CadenceError::Auth(AuthError::Unauthorized(s)) && s@ == delegated_mismatch_text()@,
        r.message@ == delegated_mismatch_text()@,
        r.details@.len() == 1,
        r.details@[0]@ == (delegated_mismatch_text()@, Some("header.account_id"@)),
{
    let r = APIResponseError::auth_error(
        AuthError::Unauthorized(String::from_str(delegated_mismatch())),
        String::from_str(delegated_mismatch()),
        vec![APIResponseErrorDetail::header("account_id", String::from_str(delegated_mismatch()))],
    );
    proof {
        reveal_strlit("header.account_id");
        assert(seq!['h', 'e', 'a', 'd', 'e', 'r', '.'] + "account_id"@ =~= "header.account_id"@)
            by {
            reveal_strlit("account_id");
        }
    }
    r
}

/// The message given when a token's account and the requested account differ.
pub open spec fn delegated_mismatch_text() -> &'static str {
    "The delegated account provided by the token credential doesn't match the provided account id"
}

fn delegated_mismatch() -> (r: &'static str)
    ensures
        r == delegated_mismatch_text(),
{
    "The delegated account provided by the token credential doesn't match the provided account id"
}

/// The token presented could not be validated.
pub fn invalid_token(auth_error: AuthError) -> (r: APIResponseError)
    ensures
        r.error == CadenceError::Auth(auth_error),
        r.message@ == "Token validation failed"@,
        r.details@.len() == 1,
        r.details@[0]@ == ("Invalid or expired token provided."@, Some("header.Authorization"@)),
{
    let r = APIResponseError::auth_error(
        auth_error,
        String::from_str("Token validation failed"),
        vec![
            APIResponseErrorDetail::header(
                "Authorization",
                String::from_str("Invalid or expired token provided."),
            ),
        ],
    );
    proof {
        reveal_strlit("header.Authorization");
        assert(seq!['h', 'e', 'a', 'd', 'e', 'r', '.'] + "Authorization"@ =~= "header.Authorization"@)
            by {
            reveal_strlit("Authorization");
        }
    }
    r
}

/// The password did not match.
pub fn invalid_password() -> (r: APIResponseError)
    ensures
        r.error matches CadenceError::Auth(AuthError::InvalidCredentials(s)) && s@
            == "Invalid password"@,
        r.message@ == "Invalid password"@,
        r.details@.len() == 0,
{
    APIResponseError::auth_error(
        AuthError::InvalidCredentials(String::from_str("Invalid password")),
        String::from_str("Invalid password"),
        Vec::new(),
    )
}

/// A token could not be issued.
pub fn error_issueing_token(auth_error: AuthError) -> (r: APIResponseError)
    ensures
        r.error == CadenceError::Auth(auth_error),
        r.message@ == "Token issueing failed"@,
        r.details@.len() == 0,
{
    APIResponseError::auth_error(auth_error, String::from_str("Token issueing failed"), Vec::new())
}

/// An `entity` whose `field` is `value` exists already.
pub fn entity_already_exists(entity: &str, field: &str, value: &str) -> (r: APIResponseError)
    ensures
        r.error matches CadenceError::Entity(EntityError::AlreadyExists(s)) && s@ == entity@
            + " with "@ + field@ + " '"@ + value@ + "' already exists"@,
        r.message@ == "Resource conflict"@,
        details_view(r.details@) == seq![
            body_finding(field@, entity@ + " with this "@ + field@ + " already exists."@),
        ],
{
    let mut detail_msg = String::from_str(entity);
    detail_msg.append(" with this ");
    detail_msg.append(field);
    detail_msg.append(" already exists.");
    let mut internal = String::from_str(entity);
    internal.append(" with ");
    internal.append(field);
    internal.append(" '");
    internal.append(value);
    internal.append("' already exists");
    let r = APIResponseError::new(
        CadenceError::Entity(EntityError::AlreadyExists(internal)),
        String::from_str("Resource conflict"),
        vec![APIResponseErrorDetail::body(field, detail_msg)],
    );
    proof {
        assert(details_view(r.details@) =~= seq![
            body_finding(field@, entity@ + " with this "@ + field@ + " already exists."@),
        ]);
    }
    r
}

} // verus!
