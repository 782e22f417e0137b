//! The closed set of failures of the service, and the status code that the
//! response layer gives each of them.

use vstd::prelude::*;

verus! {

/// A failed call to the profanity filter: its HTTP status and message.
#[derive(Debug, Clone, PartialEq, Eq)]
pub struct APILayerError {
    pub status: u16,
    pub message: String,
}

#[derive(Debug, Clone, PartialEq, Eq)]
pub enum Error {
    /// A query parameter is not a number.
    ParseError,
    /// A query parameter that the route needs is absent.
    MissingParameters,
    /// Registration with an empty email or an empty password.
    InvalidInput,
    /// Registration with an email that the account store already holds.
    AccountExists,
    /// Login with an unknown email or a wrong password; the two are not told apart.
    InvalidCredentials,
    /// A token that does not decrypt under the server key, or whose claims do not parse.
    TokenInvalid,
    /// A token whose validity window has ended.
    TokenExpired,
    /// A token whose validity window has not begun.
    TokenNotYetValid,
    /// A token could not be produced.
    CannotEncryptToken,
    /// A protected route was called without a valid token.
    Unauthorized,
    /// The account store failed.
    StorageError,
    /// The profanity filter could not be reached, or its reply did not parse.
    ReqwestAPIError,
    /// The profanity filter refused the request (a status below 500).
    ClientError(APILayerError),
    /// The profanity filter failed (a status of 500 or above).
    ServerError(APILayerError),
}

/// HTTP status for each failure: token and authorization failures are
/// `401`, failures of the profanity filter `500`, every other failure of a
/// request is `422`.
pub open spec fn spec_status_code(e: Error) -> u16 {
    match e {
        Error::TokenInvalid | Error::TokenExpired | Error::TokenNotYetValid
        | Error::Unauthorized => 401,
        Error::ClientError(_) | Error::ServerError(_) | Error::ReqwestAPIError => 500,
        _ => 422,
    }
}

/// The status code with which a rejected request is answered.
pub fn status_code(e: &Error) -> (r: u16)
    ensures
        r == spec_status_code(*e),
{
    match e {
        Error::TokenInvalid | Error::TokenExpired | Error::TokenNotYetValid
        | Error::Unauthorized => 401,
        Error::ClientError(_) | Error::ServerError(_) | Error::ReqwestAPIError => 500,
        _ => 422,
    }
}

/// The error for a failed call to the profanity filter: a client error for
/// a status below 500, a server error otherwise.
pub fn api_layer_error(status: u16, message: String) -> (r: Error)
    ensures
        status < 500 ==> (r matches Error::ClientError(e) && e.status == status && e.message@
            == message@),
        status >= 500 ==> (r matches Error::ServerError(e) && e.status == status && e.message@
            == message@),
{
    let err = APILayerError { status, message };
    if status < 500 {
        Error::ClientError(err)
    } else {
        Error::ServerError(err)
    }
}

} // verus!
