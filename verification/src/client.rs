//! Judging the answer to a request for a snapshot.

use vstd::prelude::*;

verus! {

/// A request that the server did not answer with success.
#[derive(Debug, Clone)]
pub struct FetchError {
    /// The address that was asked.
    pub url: String,
    /// The status code of the answer.
    pub status: u16,
}

impl FetchError {
    pub fn new(url: &str, status: u16) -> (error: FetchError)
        ensures
            error.url@ == url@,
            error.status == status,
    {
        FetchError { url: url.to_owned(), status }
    }
}

/// Whether a status code tells of success.
pub open spec fn is_success(status: u16) -> bool {
    200 <= status < 300
}

/// Asks `reqwest::StatusCode` about a status code. `StatusCode::from_u16`
/// takes the codes from 100 to 999 and refuses every other, and
/// `StatusCode::is_success` holds of the codes from 200 to 299.
#[verifier::external_body]
fn status_success(status: u16) -> (success: Option<bool>)
    ensures
        success is Some <==> 100 <= status <= 999,
        success matches Some(yes) ==> yes == is_success(status),
{
    match reqwest::StatusCode::from_u16(status) {
        Ok(code) => Some(code.is_success()),
        Err(_) => None,
    }
}

/// Judges the status of an answer: the body may be read where it tells of
/// success, and the request has failed where it does not.
pub fn check_status(url: &str, status: u16) -> (outcome: Result<(), FetchError>)
    ensures
        outcome is Ok <==> is_success(status),
        outcome matches Err(error) ==> error.url@ == url@ && error.status == status,
{
    match status_success(status) {
        Some(true) => Ok(()),
        _ => Err(FetchError::new(url, status)),
    }
}

} // verus!
